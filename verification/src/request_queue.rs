//! Admission and ordering of NPC chat requests: a bounded queue that serves
//! the most urgent request first and turns away low-priority work when full.
//!
//! The queue itself is a `priority_queue::PriorityQueue` from request keys to
//! priority ranks; the requests are kept beside it, one per key.

use vstd::prelude::*;
use priority_queue::PriorityQueue;
use std::collections::hash_map::RandomState;
use std::time::Instant;
use crate::chat::ChatContext;
use crate::provider_health::{instant_now, elapsed_nanos};
use crate::text::{join3, same_text};

verus! {

/// How urgently an NPC request should be served, least urgent first.
#[derive(Debug, Clone, Copy, PartialEq, Eq, Structural, PartialOrd, Ord, Hash)]
pub enum Priority {
    Background,
    Low,
    Medium,
    High,
    Critical,
}

/// The rank of a priority: 0 for `Background` up to 4 for `Critical`.
pub open spec fn rank_of(p: Priority) -> u8 {
    match p {
        Priority::Background => 0,
        Priority::Low => 1,
        Priority::Medium => 2,
        Priority::High => 3,
        Priority::Critical => 4,
    }
}

/// How far the player is from the NPC, in the bands that decide priority
/// (blocks, bounds excluded: `Under5` is less than 5).
#[derive(Debug, Clone, Copy, PartialEq, Eq, Structural)]
pub enum DistanceBand {
    Under5,
    Under10,
    Under30,
    Under100,
    Far,
}

/// The priority of a request from the player's distance, whether a
/// conversation is going on, the NPC's importance and the conversation's
/// depth.
pub open spec fn priority_for(distance: DistanceBand, active: bool, importance: u8, depth: usize) -> Priority {
    if active && depth > 0 {
        Priority::Critical
    } else if distance == DistanceBand::Under5 && importance >= 7 {
        Priority::High
    } else if distance == DistanceBand::Under5 || distance == DistanceBand::Under10 {
        Priority::High
    } else if distance == DistanceBand::Under30 {
        Priority::Medium
    } else if importance >= 8 {
        Priority::Medium
    } else if distance == DistanceBand::Under100 {
        Priority::Low
    } else {
        Priority::Background
    }
}

impl Priority {
    /// This priority's rank.
    pub fn rank(self) -> (r: u8)
        ensures
            r == rank_of(self),
    {
        match self {
            Priority::Background => 0,
            Priority::Low => 1,
            Priority::Medium => 2,
            Priority::High => 3,
            Priority::Critical => 4,
        }
    }

    /// The priority of a request (see `priority_for`).
    pub fn calculate(
        distance_to_player: DistanceBand,
        is_active_conversation: bool,
        npc_importance: u8,
        conversation_depth: usize,
    ) -> (p: Self)
        ensures
            p == priority_for(distance_to_player, is_active_conversation, npc_importance, conversation_depth),
    {
        if is_active_conversation && conversation_depth > 0 {
            return Priority::Critical;
        }
        if distance_to_player == DistanceBand::Under5 && npc_importance >= 7 {
            return Priority::High;
        }
        if distance_to_player == DistanceBand::Under5 || distance_to_player == DistanceBand::Under10 {
            return Priority::High;
        }
        if distance_to_player == DistanceBand::Under30 {
            return Priority::Medium;
        }
        if npc_importance >= 8 {
            return Priority::Medium;
        }
        if distance_to_player == DistanceBand::Under100 {
            return Priority::Low;
        }
        Priority::Background
    }
}

/// A count for each priority.
#[derive(Debug, Clone, Copy, PartialEq, Eq)]
pub struct PriorityCounts {
    pub background: u64,
    pub low: u64,
    pub medium: u64,
    pub high: u64,
    pub critical: u64,
}

impl PriorityCounts {
    /// The count of priority `p`.
    pub open spec fn count_of(self, p: Priority) -> u64 {
        match p {
            Priority::Background => self.background,
            Priority::Low => self.low,
            Priority::Medium => self.medium,
            Priority::High => self.high,
            Priority::Critical => self.critical,
        }
    }

    /// All counts zero.
    pub fn zero() -> (c: Self)
        ensures
            forall|p: Priority| #[trigger] c.count_of(p) == 0,
    {
        PriorityCounts { background: 0, low: 0, medium: 0, high: 0, critical: 0 }
    }

    /// The count of priority `p`.
    pub fn get(&self, p: Priority) -> (n: u64)
        ensures
            n == self.count_of(p),
    {
        match p {
            Priority::Background => self.background,
            Priority::Low => self.low,
            Priority::Medium => self.medium,
            Priority::High => self.high,
            Priority::Critical => self.critical,
        }
    }

    /// One more for priority `p` (counted modulo 2^64).
    pub fn bump(&mut self, p: Priority)
        ensures
            forall|q: Priority| #[trigger] final(self).count_of(q) == if q == p {
                old(self).count_of(q).wrapping_add(1)
            } else {
                old(self).count_of(q)
            },
    {
        match p {
            Priority::Background => self.background = self.background.wrapping_add(1),
            Priority::Low => self.low = self.low.wrapping_add(1),
            Priority::Medium => self.medium = self.medium.wrapping_add(1),
            Priority::High => self.high = self.high.wrapping_add(1),
            Priority::Critical => self.critical = self.critical.wrapping_add(1),
        }
    }
}

/// A chat request waiting for an NPC's answer.
#[derive(Debug)]
pub struct NPCRequest {
    pub agent_id: String,
    pub user_id: String,
    pub message: String,
    pub context: ChatContext,
    pub priority: Priority,
    pub submitted_at: Instant,
}

impl NPCRequest {
    /// A request submitted now.
    pub fn new(
        agent_id: String,
        user_id: String,
        message: String,
        context: ChatContext,
        priority: Priority,
    ) -> (r: Self)
        ensures
            r.agent_id == agent_id,
            r.user_id == user_id,
            r.message == message,
            r.context == context,
            r.priority == priority,
    {
        NPCRequest { agent_id, user_id, message, context, priority, submitted_at: instant_now() }
    }

    /// Milliseconds since the request was submitted (cut to 64 bits).
    pub fn wait_time(&self) -> (ms: u64) {
        (elapsed_nanos(&self.submitted_at) / 1_000_000) as u64
    }
}

#[verifier::external_type_specification]
#[verifier::external_body]
#[verifier::reject_recursive_types(I)]
#[verifier::reject_recursive_types(P)]
#[verifier::reject_recursive_types(H)]
pub struct ExPriorityQueue<I, P, H>(PriorityQueue<I, P, H>);

/// The queue's type: request keys with their priority ranks.
pub type RequestHeap = PriorityQueue<String, u8, RandomState>;

/// The keys in the queue, each with its priority rank.
pub uninterp spec fn pending(q: RequestHeap) -> Map<Seq<char>, u8>;

/// `PriorityQueue::new`: an empty queue.
#[verifier::external_body]
fn heap_new() -> (q: RequestHeap)
    ensures
        pending(q).dom().is_empty(),
{
    PriorityQueue::new()
}

/// `PriorityQueue::len`: the number of queued keys.
#[verifier::external_body]
fn heap_len(q: &RequestHeap) -> (n: usize)
    ensures
        n == pending(*q).len(),
{
    q.len()
}

/// `PriorityQueue::push`: queues `key` with `rank`; a key already queued
/// takes the new rank.
#[verifier::external_body]
fn heap_push(q: &mut RequestHeap, key: String, rank: u8)
    ensures
        pending(*final(q)) == pending(*old(q)).insert(key@, rank),
{
    q.push(key, rank);
}

/// `PriorityQueue::pop`: removes and returns a key of the greatest rank, or
/// `None` when the queue is empty. Which of several keys of equal rank comes
/// out is left open by the crate.
#[verifier::external_body]
fn heap_pop(q: &mut RequestHeap) -> (r: Option<(String, u8)>)
    ensures
        match r {
            None => pending(*old(q)).dom().is_empty() && pending(*final(q)) == pending(*old(q)),
            Some((key, rank)) => {
                &&& pending(*old(q)).contains_key(key@)
                &&& pending(*old(q))[key@] == rank
                &&& forall|other: Seq<char>| #[trigger] pending(*old(q)).contains_key(other) ==> pending(*old(q))[other] <= rank
                &&& pending(*final(q)) == pending(*old(q)).remove(key@)
            },
        },
{
    q.pop()
}

/// `PriorityQueue::remove`: takes `key` out of the queue, returning it with
/// its rank when it was queued.
#[verifier::external_body]
fn heap_remove(q: &mut RequestHeap, key: &String) -> (r: Option<(String, u8)>)
    ensures
        pending(*final(q)) == pending(*old(q)).remove(key@),
        match r {
            None => !pending(*old(q)).contains_key(key@),
            Some((k, rank)) => pending(*old(q)).contains_key(key@) && k@ == key@ && rank == pending(*old(q))[key@],
        },
{
    q.remove(key)
}

/// `ulid::Ulid::new` as text: a fresh identifier made from the time and
/// random bits. Nothing is stated of it.
#[verifier::external_body]
fn fresh_ulid() -> (id: String) {
    ulid::Ulid::new().to_string()
}

/// The requests as (key, request) pairs.
pub type EntryView = Seq<(Seq<char>, NPCRequest)>;

/// The position of `key` among the entries, if present.
pub open spec fn entry_pos(es: EntryView, key: Seq<char>) -> Option<int> {
    if exists|i: int| 0 <= i < es.len() && es[i].0 == key {
        Some(choose|i: int| 0 <= i < es.len() && es[i].0 == key)
    } else {
        None
    }
}

/// The entries after storing `r` under `key`: an entry with that key is
/// replaced, or a new one is added at the end.
pub open spec fn entries_put(es: EntryView, key: Seq<char>, r: NPCRequest) -> EntryView {
    match entry_pos(es, key) {
        Some(i) => es.update(i, (key, r)),
        None => es.push((key, r)),
    }
}

/// No key appears twice among the entries.
pub open spec fn entry_keys_distinct(es: EntryView) -> bool {
    forall|i: int, j: int| 0 <= i < j < es.len() ==> es[i].0 != es[j].0
}

/// The queue holds exactly the entries' keys, each with its request's rank.
pub open spec fn heap_matches(m: Map<Seq<char>, u8>, es: EntryView) -> bool {
    &&& forall|k: Seq<char>| #[trigger] m.contains_key(k) <==> entry_pos(es, k) is Some
    &&& forall|i: int| 0 <= i < es.len() ==> m.contains_key(#[trigger] es[i].0) && m[es[i].0] == rank_of(es[i].1.priority)
}

/// Number of entries of priority `p`.
pub open spec fn count_priority(es: EntryView, p: Priority) -> nat
    decreases es.len(),
{
    if es.len() == 0 {
        0
    } else {
        count_priority(es.drop_last(), p) + if es.last().1.priority == p { 1nat } else { 0nat }
    }
}

/// The message of a request turned away.
pub open spec fn queue_full_text() -> Seq<char> {
    "Queue full, request rejected"@
}

/// Queue statistics.
#[derive(Debug, Clone)]
pub struct QueueStats {
    /// Requests queued.
    pub total: usize,
    /// Requests queued, by priority.
    pub by_priority: PriorityCounts,
    /// Mean time the queued requests have waited, in milliseconds.
    pub avg_wait_time_ms: u64,
    /// Longest wait of a request served so far, in milliseconds.
    pub max_wait_time_ms: u64,
    /// Requests turned away.
    pub total_discarded: u64,
    /// Requests turned away, by priority.
    pub discarded_by_priority: PriorityCounts,
    /// Requests served.
    pub total_processed: u64,
    /// Requests that may be worked on at once.
    pub semaphore_capacity: usize,
}

/// A bounded priority queue of NPC requests.
pub struct NPCPriorityQueue {
    queue: RequestHeap,
    requests: Vec<(String, NPCRequest)>,
    max_queue_size: usize,
    semaphore_capacity: usize,
    total_discarded: u64,
    total_processed: u64,
    max_wait_time_ms: u64,
    discarded_by_priority: PriorityCounts,
}

impl NPCPriorityQueue {
    /// The queued requests with their keys, oldest key first.
    pub closed spec fn entries(&self) -> EntryView {
        self.requests@.map_values(|p: (String, NPCRequest)| (p.0@, p.1))
    }

    /// The queue: each key with its rank.
    pub closed spec fn heap(&self) -> Map<Seq<char>, u8> {
        pending(self.queue)
    }

    /// How many requests the queue takes before it turns low-priority ones away.
    pub closed spec fn limit(&self) -> usize {
        self.max_queue_size
    }

    /// Requests that may be worked on at once.
    pub closed spec fn capacity(&self) -> usize {
        self.semaphore_capacity
    }

    /// Requests turned away (modulo 2^64).
    pub closed spec fn discarded(&self) -> u64 {
        self.total_discarded
    }

    /// Requests turned away, by priority (each modulo 2^64).
    pub closed spec fn discarded_counts(&self) -> PriorityCounts {
        self.discarded_by_priority
    }

    /// Requests served (modulo 2^64).
    pub closed spec fn processed(&self) -> u64 {
        self.total_processed
    }

    /// Longest wait of a served request, in milliseconds.
    pub closed spec fn max_wait(&self) -> u64 {
        self.max_wait_time_ms
    }

    /// The queue holds exactly the requests' keys, with their ranks.
    pub open spec fn wf(&self) -> bool {
        &&& entry_keys_distinct(self.entries())
        &&& heap_matches(self.heap(), self.entries())
    }

    /// An empty queue serving `concurrency_limit` requests at once and
    /// holding up to `max_queue_size` before it turns low-priority ones away.
    pub fn new(concurrency_limit: usize, max_queue_size: usize) -> (q: Self)
        ensures
            q.wf(),
            q.entries().len() == 0,
            q.heap().dom().is_empty(),
            q.limit() == max_queue_size,
            q.capacity() == concurrency_limit,
            q.discarded() == 0,
            q.processed() == 0,
            q.max_wait() == 0,
            forall|p: Priority| #[trigger] q.discarded_counts().count_of(p) == 0,
    {
        let q = NPCPriorityQueue {
            queue: heap_new(),
            requests: Vec::new(),
            max_queue_size,
            semaphore_capacity: concurrency_limit,
            total_discarded: 0,
            total_processed: 0,
            max_wait_time_ms: 0,
            discarded_by_priority: PriorityCounts::zero(),
        };
        proof {
            assert(q.entries() =~= Seq::empty());
            assert forall|k: Seq<char>| #[trigger] q.heap().contains_key(k) <==> entry_pos(q.entries(), k) is Some by {
                assert(!q.heap().dom().contains(k));
            }
        }
        q
    }

    /// Queues `request` under the key `agent_id:stamp`. When the queue
    /// already holds its limit, a `Low` or `Background` request is turned
    /// away and counted.
    pub fn submit_keyed(&mut self, request: NPCRequest, stamp: &str) -> (r: Result<(), String>)
        requires
            old(self).wf(),
        ensures
            final(self).wf(),
            final(self).limit() == old(self).limit(),
            final(self).capacity() == old(self).capacity(),
            final(self).processed() == old(self).processed(),
            final(self).max_wait() == old(self).max_wait(),
            r is Err <==> (old(self).heap().len() >= old(self).limit() && rank_of(request.priority) <= 1),
            match r {
                Err(msg) => {
                    &&& msg@ == queue_full_text()
                    &&& final(self).entries() == old(self).entries()
                    &&& final(self).heap() == old(self).heap()
                    &&& final(self).discarded() == old(self).discarded().wrapping_add(1)
                    &&& forall|p: Priority| #[trigger] final(self).discarded_counts().count_of(p) == if p == request.priority {
                        old(self).discarded_counts().count_of(p).wrapping_add(1)
                    } else {
                        old(self).discarded_counts().count_of(p)
                    }
                },
                Ok(()) => {
                    let key = request.agent_id@ + ":"@ + stamp@;
                    &&& final(self).entries() == entries_put(old(self).entries(), key, request)
                    &&& final(self).heap() == old(self).heap().insert(key, rank_of(request.priority))
                    &&& final(self).discarded() == old(self).discarded()
                    &&& final(self).discarded_counts() == old(self).discarded_counts()
                },
            },
    {
        let rank = request.priority.rank();
        if heap_len(&self.queue) >= self.max_queue_size {
            if rank <= 1 {
                self.total_discarded = self.total_discarded.wrapping_add(1);
                self.discarded_by_priority.bump(request.priority);
                return Err("Queue full, request rejected".to_string());
            }
        }
        let key = join3(request.agent_id.as_str(), ":", stamp);
        let ghost k = key@;
        let ghost old_es = self.entries();
        let ghost old_heap = self.heap();
        heap_push(&mut self.queue, key.clone(), rank);
        let ghost req = request;
        match find_entry(&self.requests, key.as_str()) {
            Some(i) => {
                proof {
                    assert(old_es[i as int].0 == k);
                    lemma_entry_pos(old_es, i as int);
                }
                self.requests.set(i, (key, request));
                proof {
                    assert(self.entries() =~= old_es.update(i as int, (k, req)));
                }
            },
            None => {
                proof {
                    assert forall|j: int| 0 <= j < old_es.len() implies old_es[j].0 != k by {
                        assert(old_es[j].0 == self.requests@[j].0@);
                    }
                    assert(entry_pos(old_es, k) is None);
                }
                self.requests.push((key, request));
                proof {
                    assert(self.entries() =~= old_es.push((k, req)));
                }
            },
        }
        proof {
            lemma_put_keeps_match(old_heap, old_es, k, req);
        }
        Ok(())
    }

    /// Queues `request` under a fresh key made of its agent and a ULID.
    /// When the queue already holds its limit, a `Low` or `Background`
    /// request is turned away and counted.
    pub fn submit(&mut self, request: NPCRequest) -> (r: Result<(), String>)
        requires
            old(self).wf(),
        ensures
            final(self).wf(),
            final(self).limit() == old(self).limit(),
            final(self).capacity() == old(self).capacity(),
            final(self).processed() == old(self).processed(),
            final(self).max_wait() == old(self).max_wait(),
            r is Err <==> (old(self).heap().len() >= old(self).limit() && rank_of(request.priority) <= 1),
            match r {
                Err(msg) => {
                    &&& msg@ == queue_full_text()
                    &&& final(self).entries() == old(self).entries()
                    &&& final(self).heap() == old(self).heap()
                    &&& final(self).discarded() == old(self).discarded().wrapping_add(1)
                    &&& forall|p: Priority| #[trigger] final(self).discarded_counts().count_of(p) == if p == request.priority {
                        old(self).discarded_counts().count_of(p).wrapping_add(1)
                    } else {
                        old(self).discarded_counts().count_of(p)
                    }
                },
                Ok(()) => {
                    &&& exists|stamp: Seq<char>|
                        #[trigger] entries_put(old(self).entries(), request.agent_id@ + ":"@ + stamp, request) == final(self).entries()
                            && final(self).heap() == old(self).heap().insert(request.agent_id@ + ":"@ + stamp, rank_of(request.priority))
                    &&& final(self).discarded() == old(self).discarded()
                    &&& final(self).discarded_counts() == old(self).discarded_counts()
                },
            },
    {
        let stamp = fresh_ulid();
        let ghost agent = request.agent_id@;
        let ghost req = request;
        let r = self.submit_keyed(request, stamp.as_str());
        proof {
            if r is Ok {
                assert(entries_put(old(self).entries(), agent + ":"@ + stamp@, req) == self.entries());
            }
        }
        r
    }

    /// Raises the longest recorded wait to `wait_ms` if it is longer.
    fn update_max_wait(&mut self, wait_ms: u64)
        ensures
            final(self).max_wait() == if wait_ms > old(self).max_wait() { wait_ms } else { old(self).max_wait() },
            final(self).entries() == old(self).entries(),
            final(self).heap() == old(self).heap(),
            final(self).limit() == old(self).limit(),
            final(self).capacity() == old(self).capacity(),
            final(self).processed() == old(self).processed(),
            final(self).discarded() == old(self).discarded(),
            final(self).discarded_counts() == old(self).discarded_counts(),
    {
        if wait_ms > self.max_wait_time_ms {
            self.max_wait_time_ms = wait_ms;
        }
    }

    /// Takes out a request of the highest priority queued (`None` when the
    /// queue is empty), counting it as served.
    pub fn pop(&mut self) -> (r: Option<NPCRequest>)
        requires
            old(self).wf(),
        ensures
            final(self).wf(),
            final(self).limit() == old(self).limit(),
            final(self).capacity() == old(self).capacity(),
            final(self).discarded() == old(self).discarded(),
            final(self).discarded_counts() == old(self).discarded_counts(),
            r is None <==> old(self).entries().len() == 0,
            r is None ==> final(self).entries() == old(self).entries() && final(self).processed() == old(self).processed()
                && final(self).max_wait() == old(self).max_wait(),
            match r {
                None => true,
                Some(req) => exists|i: int| {
                    &&& 0 <= i < old(self).entries().len()
                    &&& #[trigger] old(self).entries()[i].1 == req
                    &&& forall|j: int| 0 <= j < old(self).entries().len() ==> rank_of(#[trigger] old(self).entries()[j].1.priority) <= rank_of(req.priority)
                    &&& final(self).entries() == old(self).entries().remove(i)
                    &&& final(self).heap() == old(self).heap().remove(old(self).entries()[i].0)
                    &&& final(self).processed() == old(self).processed().wrapping_add(1)
                    &&& final(self).max_wait() >= old(self).max_wait()
                },
            },
    {
        let ghost old_es = self.entries();
        let ghost old_heap = self.heap();
        proof {
            if old_es.len() > 0 {
                assert(old_heap.contains_key(old_es[0].0));
            } else {
                assert forall|k: Seq<char>| !old_heap.contains_key(k) by {
                    if old_heap.contains_key(k) {
                        assert(entry_pos(old_es, k) is Some);
                    }
                }
                assert(old_heap.dom() =~= Set::empty());
            }
        }
        match heap_pop(&mut self.queue) {
            None => None,
            Some((key, rank)) => {
                proof {
                    assert(entry_pos(old_es, key@) is Some);
                }
                let i = match find_entry(&self.requests, key.as_str()) {
                    Some(i) => i,
                    None => {
                        proof {
                            let c = choose|c: int| 0 <= c < old_es.len() && old_es[c].0 == key@;
                            assert(self.requests@[c].0@ == key@);
                        }
                        return None;
                    },
                };
                let (_, request) = self.requests.remove(i);
                let ghost ii = i as int;
                proof {
                    assert(old_es[ii].1 == request);
                    assert(self.entries() =~= old_es.remove(ii));
                    lemma_remove_keeps_match(old_heap, old_es, ii);
                    assert forall|j: int| 0 <= j < old_es.len() implies rank_of(#[trigger] old_es[j].1.priority) <= rank_of(request.priority) by {
                        assert(old_heap.contains_key(old_es[j].0));
                    }
                }
                let wait_ms = request.wait_time();
                self.total_processed = self.total_processed.wrapping_add(1);
                self.update_max_wait(wait_ms);
                Some(request)
            },
        }
    }

    /// Queue statistics.
    pub fn stats(&self) -> (st: QueueStats)
        requires
            self.wf(),
        ensures
            st.total == self.heap().len(),
            forall|p: Priority| #[trigger] st.by_priority.count_of(p) == count_priority(self.entries(), p),
            self.entries().len() == 0 ==> st.avg_wait_time_ms == 0,
            st.max_wait_time_ms == self.max_wait(),
            st.total_discarded == self.discarded(),
            st.discarded_by_priority == self.discarded_counts(),
            st.total_processed == self.processed(),
            st.semaphore_capacity == self.capacity(),
    {
        let ghost es = self.entries();
        let mut by_priority = PriorityCounts::zero();
        let mut wait_sum: u128 = 0;
        let mut i: usize = 0;
        while i < self.requests.len()
            invariant
                i <= self.requests@.len(),
                es == self.entries(),
                es.len() == self.requests@.len(),
                wait_sum <= i * 0x1_0000_0000_0000_0000,
                forall|p: Priority| #[trigger] by_priority.count_of(p) == count_priority(es.take(i as int), p),
            decreases self.requests.len() - i,
        {
            let p = self.requests[i].1.priority;
            proof {
                assert(es.take(i + 1).drop_last() =~= es.take(i as int));
                assert forall|q: Priority| #[trigger] count_priority(es.take(i as int), q) <= i by {
                    lemma_count_priority_bound(es.take(i as int), q);
                }
            }
            by_priority.bump(p);
            wait_sum = wait_sum + self.requests[i].1.wait_time() as u128;
            i += 1;
        }
        proof {
            assert(es.take(es.len() as int) =~= es);
        }
        let n = self.requests.len();
        let avg_wait_time_ms: u64 = if n > 0 { (wait_sum / n as u128) as u64 } else { 0 };
        QueueStats {
            total: heap_len(&self.queue),
            by_priority,
            avg_wait_time_ms,
            max_wait_time_ms: self.max_wait_time_ms,
            total_discarded: self.total_discarded,
            discarded_by_priority: self.discarded_by_priority,
            total_processed: self.total_processed,
            semaphore_capacity: self.semaphore_capacity,
        }
    }

    /// Drops the `Background` requests that have waited longer than
    /// `max_age_ms` milliseconds. Every other request stays, in order.
    pub fn clear_old_background(&mut self, max_age_ms: u64)
        requires
            old(self).wf(),
        ensures
            final(self).wf(),
            final(self).limit() == old(self).limit(),
            final(self).capacity() == old(self).capacity(),
            final(self).processed() == old(self).processed(),
            final(self).max_wait() == old(self).max_wait(),
            final(self).discarded() == old(self).discarded(),
            final(self).discarded_counts() == old(self).discarded_counts(),
            drawn_from(final(self).entries(), old(self).entries(), old(self).entries().len() as int),
            forall|j: int| 0 <= j < old(self).entries().len() && (#[trigger] old(self).entries()[j]).1.priority != Priority::Background
                ==> exists|i: int| 0 <= i < final(self).entries().len() && final(self).entries()[i] == old(self).entries()[j],
    {
        let ghost old_es = self.entries();
        let mut rest: Vec<(String, NPCRequest)> = Vec::new();
        std::mem::swap(&mut rest, &mut self.requests);
        let ghost all = rest@.map_values(|p: (String, NPCRequest)| (p.0@, p.1));
        let total = rest.len();
        let mut done: usize = 0;
        proof {
            assert(self.entries() =~= Seq::empty());
            assert(self.entries() + all.skip(0) =~= old_es);
        }
        while rest.len() > 0
            invariant
                all == old_es,
                all.len() <= usize::MAX,
                done <= all.len(),
                rest@.map_values(|p: (String, NPCRequest)| (p.0@, p.1)) == all.skip(done as int),
                entry_keys_distinct(self.entries() + all.skip(done as int)),
                heap_matches(self.heap(), self.entries() + all.skip(done as int)),
                drawn_from(self.entries(), all, done as int),
                forall|j: int| 0 <= j < done && (#[trigger] all[j]).1.priority != Priority::Background
                    ==> exists|i: int| 0 <= i < self.entries().len() && self.entries()[i] == all[j],
                self.limit() == old(self).limit(),
                self.capacity() == old(self).capacity(),
                self.processed() == old(self).processed(),
                self.max_wait() == old(self).max_wait(),
                self.discarded() == old(self).discarded(),
                self.discarded_counts() == old(self).discarded_counts(),
            decreases rest@.len(),
        {
            let ghost kept = self.entries();
            let ghost tail = all.skip(done as int);
            let (key, request) = rest.remove(0);
            let ghost item = (key@, request);
            proof {
                assert(done < all.len());
                assert(tail[0] == (key@, request));
                assert(all[done as int] == (key@, request));
                assert(tail.drop_first() =~= all.skip(done + 1));
            }
            let expired = request.priority == Priority::Background
                && elapsed_nanos(&request.submitted_at) > max_age_ms as u128 * 1_000_000;
            if expired {
                let ghost h = self.heap();
                heap_remove(&mut self.queue, &key);
                proof {
                    lemma_drop_entry(h, kept, tail);
                    assert(kept + tail.drop_first() =~= kept + all.skip(done + 1));
                    assert forall|i: int| 0 <= i < self.entries().len() implies #[trigger] drawn_at(self.entries(), all, done + 1, i) by {
                        assert(drawn_at(kept, all, done as int, i));
                    }
                }
            } else {
                self.requests.push((key, request));
                proof {
                    assert(self.entries() =~= kept.push(item));
                    assert(kept + tail =~= self.entries() + tail.drop_first());
                    assert forall|i: int| 0 <= i < self.entries().len() implies #[trigger] drawn_at(self.entries(), all, done + 1, i) by {
                        if i < kept.len() {
                            assert(drawn_at(kept, all, done as int, i));
                            assert(self.entries()[i] == kept[i]);
                        } else {
                            assert(self.entries()[i] == all[done as int]);
                        }
                    }
                }
            }
            proof {
                assert forall|j: int| 0 <= j < done + 1 && (#[trigger] all[j]).1.priority != Priority::Background
                    implies exists|i: int| 0 <= i < self.entries().len() && self.entries()[i] == all[j] by {
                    if j < done {
                        let i0 = choose|i: int| 0 <= i < kept.len() && kept[i] == all[j];
                        if !expired {
                            assert(self.entries()[i0] == kept[i0]);
                        }
                    } else {
                        assert(self.entries()[self.entries().len() - 1] == all[j]);
                    }
                }
            }
            done += 1;
        }
        proof {
            assert(self.entries() + all.skip(done as int) =~= self.entries());
            assert(done == all.len());
            assert(old_es == old(self).entries());
        }
    }

    /// Number of requests queued.
    pub fn len(&self) -> (n: usize)
        ensures
            n == self.heap().len(),
    {
        heap_len(&self.queue)
    }
}

/// Entry `i` of `a` is one of the first `n` entries of `b`.
pub open spec fn drawn_at(a: EntryView, b: EntryView, n: int, i: int) -> bool {
    exists|j: int| 0 <= j < n && a[i] == b[j]
}

/// Every entry of `a` is one of the first `n` entries of `b`.
pub open spec fn drawn_from(a: EntryView, b: EntryView, n: int) -> bool {
    forall|i: int| 0 <= i < a.len() ==> #[trigger] drawn_at(a, b, n, i)
}

/// The first position of `key` among `requests`, if present.
fn find_entry(requests: &Vec<(String, NPCRequest)>, key: &str) -> (r: Option<usize>)
    ensures
        match r {
            Some(i) => i < requests@.len() && requests@[i as int].0@ == key@,
            None => forall|j: int| 0 <= j < requests@.len() ==> (#[trigger] requests@[j]).0@ != key@,
        },
{
    let mut i: usize = 0;
    while i < requests.len()
        invariant
            i <= requests@.len(),
            forall|j: int| 0 <= j < i ==> (#[trigger] requests@[j]).0@ != key@,
        decreases requests.len() - i,
    {
        if same_text(requests[i].0.as_str(), key) {
            return Some(i);
        }
        i += 1;
    }
    None
}

proof fn lemma_entry_pos(es: EntryView, i: int)
    requires
        entry_keys_distinct(es),
        0 <= i < es.len(),
    ensures
        entry_pos(es, es[i].0) == Some(i),
{
    let c = choose|c: int| 0 <= c < es.len() && es[c].0 == es[i].0;
    if c != i {
        if c < i {
            assert(es[c].0 != es[i].0);
        } else {
            assert(es[i].0 != es[c].0);
        }
    }
}

proof fn lemma_put_keeps_match(m: Map<Seq<char>, u8>, es: EntryView, key: Seq<char>, r: NPCRequest)
    requires
        entry_keys_distinct(es),
        heap_matches(m, es),
    ensures
        entry_keys_distinct(entries_put(es, key, r)),
        heap_matches(m.insert(key, rank_of(r.priority)), entries_put(es, key, r)),
{
    let ne = entries_put(es, key, r);
    let nm = m.insert(key, rank_of(r.priority));
    match entry_pos(es, key) {
        Some(p) => {
            lemma_entry_pos(es, p);
            assert forall|a: int, b: int| 0 <= a < b < ne.len() implies ne[a].0 != ne[b].0 by {
                assert(ne[a].0 == es[a].0);
                assert(ne[b].0 == es[b].0);
            }
            assert forall|k: Seq<char>| #[trigger] nm.contains_key(k) <==> entry_pos(ne, k) is Some by {
                if nm.contains_key(k) {
                    if k == key {
                        assert(ne[p].0 == k);
                    } else {
                        let q = choose|q: int| 0 <= q < es.len() && es[q].0 == k;
                        assert(ne[q].0 == k);
                    }
                }
                if entry_pos(ne, k) is Some {
                    let q = choose|q: int| 0 <= q < ne.len() && ne[q].0 == k;
                    assert(es[q].0 == k);
                }
            }
            assert forall|i: int| 0 <= i < ne.len() implies nm.contains_key(#[trigger] ne[i].0) && nm[ne[i].0] == rank_of(ne[i].1.priority) by {
                if i != p {
                    assert(ne[i] == es[i]);
                    assert(es[i].0 != key);
                }
            }
        },
        None => {
            assert forall|a: int, b: int| 0 <= a < b < ne.len() implies ne[a].0 != ne[b].0 by {
                if b == es.len() {
                    assert(es[a].0 != key);
                }
            }
            assert forall|k: Seq<char>| #[trigger] nm.contains_key(k) <==> entry_pos(ne, k) is Some by {
                if nm.contains_key(k) {
                    if k == key {
                        assert(ne[es.len() as int].0 == k);
                    } else {
                        let q = choose|q: int| 0 <= q < es.len() && es[q].0 == k;
                        assert(ne[q].0 == k);
                    }
                }
                if entry_pos(ne, k) is Some {
                    let q = choose|q: int| 0 <= q < ne.len() && ne[q].0 == k;
                    if q < es.len() {
                        assert(es[q].0 == k);
                    }
                }
            }
            assert forall|i: int| 0 <= i < ne.len() implies nm.contains_key(#[trigger] ne[i].0) && nm[ne[i].0] == rank_of(ne[i].1.priority) by {
                if i < es.len() {
                    assert(ne[i] == es[i]);
                    assert(es[i].0 != key);
                }
            }
        },
    }
}

proof fn lemma_remove_keeps_match(m: Map<Seq<char>, u8>, es: EntryView, i: int)
    requires
        entry_keys_distinct(es),
        heap_matches(m, es),
        0 <= i < es.len(),
    ensures
        entry_keys_distinct(es.remove(i)),
        heap_matches(m.remove(es[i].0), es.remove(i)),
{
    let ne = es.remove(i);
    let nm = m.remove(es[i].0);
    assert forall|a: int, b: int| 0 <= a < b < ne.len() implies ne[a].0 != ne[b].0 by {
        let a0 = if a < i { a } else { a + 1 };
        let b0 = if b < i { b } else { b + 1 };
        assert(ne[a] == es[a0]);
        assert(ne[b] == es[b0]);
    }
    assert forall|k: Seq<char>| #[trigger] nm.contains_key(k) <==> entry_pos(ne, k) is Some by {
        if nm.contains_key(k) {
            let q = choose|q: int| 0 <= q < es.len() && es[q].0 == k;
            assert(q != i);
            let q2 = if q < i { q } else { q - 1 };
            assert(ne[q2].0 == k);
        }
        if entry_pos(ne, k) is Some {
            let q = choose|q: int| 0 <= q < ne.len() && ne[q].0 == k;
            let q0 = if q < i { q } else { q + 1 };
            assert(es[q0].0 == k);
            assert(q0 != i);
            assert(es[q0].0 != es[i].0);
        }
    }
    assert forall|j: int| 0 <= j < ne.len() implies nm.contains_key(#[trigger] ne[j].0) && nm[ne[j].0] == rank_of(ne[j].1.priority) by {
        let j0 = if j < i { j } else { j + 1 };
        assert(ne[j] == es[j0]);
        assert(j0 != i);
        assert(es[j0].0 != es[i].0);
        assert(m.contains_key(es[j0].0));
    }
}

proof fn lemma_drop_entry(m: Map<Seq<char>, u8>, kept: EntryView, tail: EntryView)
    requires
        tail.len() > 0,
        entry_keys_distinct(kept + tail),
        heap_matches(m, kept + tail),
    ensures
        entry_keys_distinct(kept + tail.drop_first()),
        heap_matches(m.remove(tail[0].0), kept + tail.drop_first()),
{
    let es = kept + tail;
    let i = kept.len() as int;
    assert(es[i] == tail[0]);
    assert(es.remove(i) =~= kept + tail.drop_first());
    lemma_remove_keeps_match(m, es, i);
}

proof fn lemma_count_priority_bound(es: EntryView, p: Priority)
    ensures
        count_priority(es, p) <= es.len(),
    decreases es.len(),
{
    if es.len() > 0 {
        lemma_count_priority_bound(es.drop_last(), p);
    }
}

} // verus!
