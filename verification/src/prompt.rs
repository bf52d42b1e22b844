//! The system message sent to a language model with each chat request: a
//! base prompt, the agent's own context, and a description of the scene.
//!
//! The part built from the prompts is remembered in a small `lru::LruCache`,
//! keyed by a 64-bit hash of the prompts.

use vstd::prelude::*;
use std::collections::hash_map::DefaultHasher;
use std::hash::{Hash, Hasher};
use std::num::NonZeroUsize;
use lru::LruCache;
use crate::chat::ChatContext;
use crate::text::{push_str, push_char, join2};

verus! {

/// How many built prompts the cache keeps.
pub const SYSTEM_PROMPT_CACHE_SIZE: usize = 256;

/// The prompt used when neither the request nor the provider gives one.
pub open spec fn default_prompt() -> Seq<char> {
    "You are an NPC in a game world. Respond in character, concisely."@
}

/// The digit character for `d` (0 to 9).
pub open spec fn digit_char(d: nat) -> char {
    (48 + d) as char
}

/// The decimal digits of `n`.
pub open spec fn digits_of(n: nat) -> Seq<char>
    decreases n,
{
    if n < 10 {
        seq![digit_char(n)]
    } else {
        digits_of(n / 10).push(digit_char(n % 10))
    }
}

/// The decimal text of `i`, with a minus sign when negative.
pub open spec fn int_text(i: int) -> Seq<char> {
    if i < 0 {
        seq!['-'] + digits_of((-i) as nat)
    } else {
        digits_of(i as nat)
    }
}

/// The decimal text of `n`.
pub fn decimal_u64(n: u64) -> (s: String)
    ensures
        s@ == digits_of(n as nat),
{
    let mut rev: Vec<char> = Vec::new();
    let mut m: u64 = n;
    let mut first = true;
    while first || m > 0
        invariant
            first ==> m == n && rev@.len() == 0,
            (first || m > 0) ==> digits_of(n as nat) == digits_of(m as nat) + rev@.reverse(),
            (!first && m == 0) ==> digits_of(n as nat) == rev@.reverse(),
        decreases m + if first { 1int } else { 0int },
    {
        let d = m % 10;
        let ghost before = rev@;
        rev.push(((48 + d) as u8) as char);
        proof {
            assert(rev@ == before.push(((48 + d) as u8) as char));
            assert(rev@.reverse() =~= seq![digit_char(d as nat)] + before.reverse());
            assert(((48 + d) as u8) as char == digit_char(d as nat));
            if m >= 10 {
                assert(digits_of(m as nat) == digits_of((m / 10) as nat).push(digit_char((m % 10) as nat)));
                assert(digits_of((m / 10) as nat).push(digit_char(d as nat)) + before.reverse()
                    =~= digits_of((m / 10) as nat) + (seq![digit_char(d as nat)] + before.reverse()));
            } else {
                assert(digits_of(m as nat) == seq![digit_char(d as nat)]);
            }
        }
        m = m / 10;
        first = false;
    }
    let mut s = String::new();
    let mut k: usize = rev.len();
    while k > 0
        invariant
            k <= rev@.len(),
            digits_of(n as nat) == rev@.reverse(),
            s@ == rev@.reverse().take((rev@.len() - k) as int),
        decreases k,
    {
        k -= 1;
        push_char(&mut s, rev[k]);
        proof {
            assert(rev@.reverse()[(rev@.len() - k - 1) as int] == rev@[k as int]);
            assert(s@ =~= rev@.reverse().take((rev@.len() - k) as int));
        }
    }
    proof {
        assert(rev@.reverse().take(rev@.len() as int) =~= rev@.reverse());
    }
    s
}

/// The decimal text of `i`.
pub fn decimal_i32(i: i32) -> (s: String)
    ensures
        s@ == int_text(i as int),
{
    if i < 0 {
        let magnitude = (-(i as i64)) as u64;
        let digits = decimal_u64(magnitude);
        let mut s = String::new();
        push_char(&mut s, '-');
        push_str(&mut s, digits.as_str());
        s
    } else {
        decimal_u64(i as u64)
    }
}

/// The `{:?}` text of a list of strings: what `format!` gives for a
/// `Vec<String>`.
pub uninterp spec fn debug_list_text(items: Seq<Seq<char>>) -> Seq<char>;

/// `format!("{:?}", items)`: the debug text of the list.
#[verifier::external_body]
fn debug_list(items: &Vec<String>) -> (s: String)
    ensures
        s@ == debug_list_text(items@.map_values(|t: String| t@)),
{
    format!("{:?}", items)
}

/// The hash that keys the prompt cache: `std`'s `DefaultHasher` (built with
/// `new`, so the same in every run of one build) fed the request's prompt,
/// the agent's context and the provider's prompt, in that order.
pub uninterp spec fn prompt_key(override_prompt: Option<Seq<char>>, ai_context: Option<Seq<char>>, system_prompt: Option<Seq<char>>) -> u64;

/// `DefaultHasher::new`, `Hash::hash` of the three prompts, then `finish`.
#[verifier::external_body]
fn hash_prompts(override_prompt: Option<&str>, ai_context: Option<&str>, system_prompt: Option<&str>) -> (h: u64)
    ensures
        h == prompt_key(opt_text(override_prompt), opt_text(ai_context), opt_text(system_prompt)),
{
    let mut hasher = DefaultHasher::new();
    override_prompt.hash(&mut hasher);
    ai_context.hash(&mut hasher);
    system_prompt.hash(&mut hasher);
    hasher.finish()
}

/// The text of an optional string.
pub open spec fn opt_text(s: Option<&str>) -> Option<Seq<char>> {
    match s {
        Some(t) => Some(t@),
        None => None,
    }
}

/// The prompt part of a system message: the request's prompt, else the
/// provider's, else the default; then, when the agent's context is given
/// and not empty, a blank line and the context.
pub open spec fn static_prompt(override_prompt: Option<Seq<char>>, ai_context: Option<Seq<char>>, system_prompt: Option<Seq<char>>) -> Seq<char> {
    let base = match override_prompt {
        Some(p) => p,
        None => match system_prompt {
            Some(p) => p,
            None => default_prompt(),
        },
    };
    match ai_context {
        Some(c) => if c.len() > 0 { base + "\n\n"@ + c } else { base },
        None => base,
    }
}

/// The part of the day that a game time (in ticks) falls in.
pub open spec fn period_of(t: u64) -> Seq<char> {
    if t < 6000 {
        "morning"@
    } else if t < 12000 {
        "afternoon"@
    } else if t < 18000 {
        "evening"@
    } else {
        "night"@
    }
}

/// The part of the day that a game time (in ticks) falls in.
pub fn period_label(t: u64) -> (p: &'static str)
    ensures
        p@ == period_of(t),
{
    if t < 6000 {
        "morning"
    } else if t < 12000 {
        "afternoon"
    } else if t < 18000 {
        "evening"
    } else {
        "night"
    }
}

/// The scene's position line, if the position is known.
pub open spec fn position_lines(c: ChatContext) -> Seq<Seq<char>> {
    match c.position {
        Some(p) => seq!["Position: ("@ + int_text(p.x as int) + ", "@ + int_text(p.y as int) + ", "@
            + int_text(p.z as int) + ") in "@ + p.world@],
        None => Seq::empty(),
    }
}

/// The scene's activity line, if known.
pub open spec fn activity_lines(c: ChatContext) -> Seq<Seq<char>> {
    match c.activity {
        Some(a) => seq!["Current activity: "@ + a@],
        None => Seq::empty(),
    }
}

/// The line listing nearby players, if there are any.
pub open spec fn player_lines(c: ChatContext) -> Seq<Seq<char>> {
    if c.nearby_players@.len() > 0 {
        seq!["Nearby players: "@ + debug_list_text(c.nearby_players@.map_values(|t: String| t@))]
    } else {
        Seq::empty()
    }
}

/// The line listing nearby NPCs, if there are any.
pub open spec fn npc_lines(c: ChatContext) -> Seq<Seq<char>> {
    if c.nearby_npcs@.len() > 0 {
        seq!["Nearby NPCs: "@ + debug_list_text(c.nearby_npcs@.map_values(|t: String| t@))]
    } else {
        Seq::empty()
    }
}

/// The time-of-day line, if known.
pub open spec fn time_lines(c: ChatContext) -> Seq<Seq<char>> {
    match c.time_of_day {
        Some(t) => seq!["Time of day: "@ + digits_of(t as nat) + " ("@ + period_of(t) + ")"@],
        None => Seq::empty(),
    }
}

/// The weather line, if known.
pub open spec fn weather_lines(c: ChatContext) -> Seq<Seq<char>> {
    match c.weather {
        Some(w) => seq!["Weather: "@ + w@],
        None => Seq::empty(),
    }
}

/// The lines that describe a scene, in order: position, activity, nearby
/// players, nearby NPCs, time of day and weather, each when known.
pub open spec fn context_lines(c: ChatContext) -> Seq<Seq<char>> {
    position_lines(c) + activity_lines(c) + player_lines(c) + npc_lines(c) + time_lines(c) + weather_lines(c)
}

/// The lines joined with line breaks.
pub open spec fn join_lines(lines: Seq<Seq<char>>) -> Seq<char>
    decreases lines.len(),
{
    if lines.len() == 0 {
        Seq::empty()
    } else if lines.len() == 1 {
        lines[0]
    } else {
        join_lines(lines.drop_last()) + "\n"@ + lines.last()
    }
}

/// A full system message: the prompt part, then, when the scene has
/// anything to say, a `[CONTEXT]` section with its lines.
pub open spec fn system_message(static_part: Seq<char>, c: ChatContext) -> Seq<char> {
    if context_lines(c).len() > 0 {
        static_part + "\n\n[CONTEXT]\n"@ + join_lines(context_lines(c))
    } else {
        static_part
    }
}

#[verifier::external_type_specification]
#[verifier::external_body]
#[verifier::reject_recursive_types(K)]
#[verifier::reject_recursive_types(V)]
#[verifier::reject_recursive_types(S)]
pub struct ExLruCache<K, V, S>(LruCache<K, V, S>);

#[verifier::external_type_specification]
#[verifier::external_body]
pub struct ExLruHasher(lru::DefaultHasher);

/// The prompt cache's type.
pub type PromptLru = LruCache<u64, String>;

/// The prompt parts the cache holds, by key.
pub uninterp spec fn prompt_entries(c: PromptLru) -> Map<u64, Seq<char>>;

/// The most entries the cache holds.
pub uninterp spec fn prompt_capacity(c: PromptLru) -> nat;

/// `LruCache::new` with capacity `cap` (nonzero, so the `NonZeroUsize`
/// is made without failing): an empty cache.
#[verifier::external_body]
fn prompt_lru_new(cap: usize) -> (c: PromptLru)
    requires
        cap > 0,
    ensures
        prompt_entries(c).dom().is_empty(),
        prompt_capacity(c) == cap,
{
    LruCache::new(NonZeroUsize::new(cap).unwrap())
}

/// `LruCache::peek`: the entry under `key`, without touching the order of
/// use.
#[verifier::external_body]
fn prompt_lru_peek(c: &PromptLru, key: u64) -> (r: Option<String>)
    ensures
        match r {
            Some(v) => prompt_entries(*c).contains_key(key) && prompt_entries(*c)[key] == v@,
            None => !prompt_entries(*c).contains_key(key),
        },
{
    c.peek(&key).cloned()
}

/// `LruCache::put`: stores `value` under `key` as the most recently used
/// entry. When the key is new and the cache is full, the least recently
/// used entry leaves; the others stay as they were.
#[verifier::external_body]
fn prompt_lru_put(c: &mut PromptLru, key: u64, value: String)
    ensures
        prompt_capacity(*final(c)) == prompt_capacity(*old(c)),
        prompt_entries(*final(c)).contains_key(key),
        prompt_entries(*final(c))[key] == value@,
        forall|k: u64| k != key && #[trigger] prompt_entries(*final(c)).contains_key(k)
            ==> prompt_entries(*old(c)).contains_key(k) && prompt_entries(*final(c))[k] == prompt_entries(*old(c))[k],
        (prompt_entries(*old(c)).contains_key(key) || prompt_entries(*old(c)).len() < prompt_capacity(*old(c)))
            ==> forall|k: u64| #[trigger] prompt_entries(*old(c)).contains_key(k) ==> prompt_entries(*final(c)).contains_key(k),
{
    c.put(key, value);
}

/// `LruCache::len`: the number of entries.
#[verifier::external_body]
fn prompt_lru_len(c: &PromptLru) -> (n: usize)
    ensures
        n == prompt_entries(*c).len(),
{
    c.len()
}

/// Builds system messages for one provider, whose own prompt is
/// `system_prompt`, remembering the prompt parts it has built.
pub struct SystemPromptBuilder {
    system_prompt: Option<String>,
    cache: PromptLru,
}

/// Every cached prompt part is the one built from prompts with its key.
pub open spec fn cache_faithful(entries: Map<u64, Seq<char>>, system_prompt: Option<Seq<char>>) -> bool {
    forall|k: u64| #[trigger] entries.contains_key(k) ==> exists|o: Option<Seq<char>>, a: Option<Seq<char>>| {
        &&& #[trigger] prompt_key(o, a, system_prompt) == k
        &&& entries[k] == static_prompt(o, a, system_prompt)
    }
}

impl SystemPromptBuilder {
    /// The provider's own prompt.
    pub closed spec fn provider_prompt(&self) -> Option<Seq<char>> {
        match self.system_prompt {
            Some(p) => Some(p@),
            None => None,
        }
    }

    /// The cached prompt parts, by key.
    pub closed spec fn cached(&self) -> Map<u64, Seq<char>> {
        prompt_entries(self.cache)
    }

    /// The most prompt parts the cache holds.
    pub closed spec fn cache_limit(&self) -> nat {
        prompt_capacity(self.cache)
    }

    /// Every cached part is the one its key's prompts give.
    pub open spec fn wf(&self) -> bool {
        cache_faithful(self.cached(), self.provider_prompt())
    }

    /// A builder for a provider whose own prompt is `system_prompt`, with an
    /// empty cache of `SYSTEM_PROMPT_CACHE_SIZE` entries.
    pub fn new(system_prompt: Option<String>) -> (b: Self)
        ensures
            b.wf(),
            b.provider_prompt() == match system_prompt { Some(p) => Some(p@), None => None::<Seq<char>> },
            b.cached().dom().is_empty(),
            b.cache_limit() == SYSTEM_PROMPT_CACHE_SIZE,
    {
        let b = SystemPromptBuilder { system_prompt, cache: prompt_lru_new(SYSTEM_PROMPT_CACHE_SIZE) };
        proof {
            assert forall|k: u64| #[trigger] b.cached().contains_key(k) implies false by {
                assert(!b.cached().dom().contains(k));
            }
        }
        b
    }

    /// Number of prompt parts cached.
    pub fn cache_len(&self) -> (n: usize)
        ensures
            n == self.cached().len(),
    {
        prompt_lru_len(&self.cache)
    }

    /// The system message for a request with prompt `override_prompt`, the
    /// agent's context `ai_context` and the scene `context`. The prompt part
    /// is the one cached under the prompts' key, else built and cached; it
    /// is the part these prompts give unless other prompts with the same
    /// 64-bit key were cached first.
    pub fn build_system_message(&mut self, override_prompt: Option<&str>, ai_context: Option<&str>, context: &ChatContext) -> (m: String)
        requires
            old(self).wf(),
        ensures
            final(self).wf(),
            final(self).provider_prompt() == old(self).provider_prompt(),
            ({
                let key = prompt_key(opt_text(override_prompt), opt_text(ai_context), old(self).provider_prompt());
                &&& final(self).cached().contains_key(key)
                &&& m@ == system_message(final(self).cached()[key], *context)
                &&& old(self).cached().contains_key(key) ==> final(self).cached() == old(self).cached()
                &&& !old(self).cached().contains_key(key) ==> {
                    let part = static_prompt(opt_text(override_prompt), opt_text(ai_context), old(self).provider_prompt());
                    &&& m@ == system_message(part, *context)
                    &&& final(self).cached()[key] == part
                    &&& forall|k: u64| k != key && #[trigger] final(self).cached().contains_key(k)
                        ==> old(self).cached().contains_key(k) && final(self).cached()[k] == old(self).cached()[k]
                    &&& old(self).cached().len() < old(self).cache_limit()
                        ==> forall|k: u64| #[trigger] old(self).cached().contains_key(k) ==> final(self).cached().contains_key(k)
                }
            }),
            final(self).cache_limit() == old(self).cache_limit(),
            exists|o: Option<Seq<char>>, a: Option<Seq<char>>| {
                &&& #[trigger] prompt_key(o, a, old(self).provider_prompt())
                    == prompt_key(opt_text(override_prompt), opt_text(ai_context), old(self).provider_prompt())
                &&& m@ == system_message(static_prompt(o, a, old(self).provider_prompt()), *context)
            },
    {
        let ghost sys = self.provider_prompt();
        let ghost o = opt_text(override_prompt);
        let ghost a = opt_text(ai_context);
        let system = match &self.system_prompt {
            Some(p) => Some(p.as_str()),
            None => None,
        };
        proof {
            assert(opt_text(system) == sys);
        }
        let key = hash_prompts(override_prompt, ai_context, system);
        let static_part = match prompt_lru_peek(&self.cache, key) {
            Some(cached) => cached,
            None => {
                let base = match override_prompt {
                    Some(p) => p,
                    None => match system {
                        Some(p) => p,
                        None => "You are an NPC in a game world. Respond in character, concisely.",
                    },
                };
                let mut result = base.to_string();
                if let Some(ctx) = ai_context {
                    if !ctx.is_empty() {
                        push_str(&mut result, "\n\n");
                        push_str(&mut result, ctx);
                    }
                }
                proof {
                    assert(result@ == static_prompt(o, a, sys));
                }
                let ghost before = self.cached();
                prompt_lru_put(&mut self.cache, key, result.clone());
                proof {
                    assert forall|k: u64| #[trigger] self.cached().contains_key(k) implies exists|o2: Option<Seq<char>>, a2: Option<Seq<char>>| {
                        &&& #[trigger] prompt_key(o2, a2, sys) == k
                        &&& self.cached()[k] == static_prompt(o2, a2, sys)
                    } by {
                        if k == key {
                            assert(prompt_key(o, a, sys) == k);
                        } else {
                            assert(before.contains_key(k));
                        }
                    }
                }
                result
            },
        };
        proof {
            assert(self.cached().contains_key(key));
            assert(static_part@ == self.cached()[key]);
            let (o2, a2) = choose|o2: Option<Seq<char>>, a2: Option<Seq<char>>| {
                &&& #[trigger] prompt_key(o2, a2, sys) == key
                &&& self.cached()[key] == static_prompt(o2, a2, sys)
            };
            assert(prompt_key(o2, a2, sys) == prompt_key(o, a, sys));
        }
        let lines = scene_lines(context);
        if lines.len() > 0 {
            let mut message = static_part;
            push_str(&mut message, "\n\n[CONTEXT]\n");
            let body = join_with_breaks(&lines);
            push_str(&mut message, body.as_str());
            message
        } else {
            static_part
        }
    }
}

/// The scene's lines (see `context_lines`).
fn scene_lines(c: &ChatContext) -> (lines: Vec<String>)
    ensures
        lines@.map_values(|t: String| t@) == context_lines(*c),
{
    let mut lines: Vec<String> = Vec::new();
    let ghost pos = position_lines(*c);
    if let Some(p) = &c.position {
        let mut line = "Position: (".to_string();
        push_str(&mut line, decimal_i32(p.x).as_str());
        push_str(&mut line, ", ");
        push_str(&mut line, decimal_i32(p.y).as_str());
        push_str(&mut line, ", ");
        push_str(&mut line, decimal_i32(p.z).as_str());
        push_str(&mut line, ") in ");
        push_str(&mut line, p.world.as_str());
        lines.push(line);
    }
    assert(lines@.map_values(|t: String| t@) =~= pos);
    let ghost activity = activity_lines(*c);
    if let Some(a) = &c.activity {
        lines.push(join2("Current activity: ", a.as_str()));
    }
    assert(lines@.map_values(|t: String| t@) =~= pos + activity);
    let ghost players = player_lines(*c);
    if c.nearby_players.len() > 0 {
        lines.push(join2("Nearby players: ", debug_list(&c.nearby_players).as_str()));
    }
    assert(lines@.map_values(|t: String| t@) =~= pos + activity + players);
    let ghost npcs = npc_lines(*c);
    if c.nearby_npcs.len() > 0 {
        lines.push(join2("Nearby NPCs: ", debug_list(&c.nearby_npcs).as_str()));
    }
    assert(lines@.map_values(|t: String| t@) =~= pos + activity + players + npcs);
    let ghost time = time_lines(*c);
    if let Some(t) = c.time_of_day {
        let mut line = "Time of day: ".to_string();
        push_str(&mut line, decimal_u64(t).as_str());
        push_str(&mut line, " (");
        push_str(&mut line, period_label(t));
        push_str(&mut line, ")");
        lines.push(line);
    }
    assert(lines@.map_values(|t: String| t@) =~= pos + activity + players + npcs + time);
    let ghost weather = weather_lines(*c);
    if let Some(w) = &c.weather {
        lines.push(join2("Weather: ", w.as_str()));
    }
    assert(lines@.map_values(|t: String| t@) =~= pos + activity + players + npcs + time + weather);
    lines
}

/// The lines joined with line breaks (see `join_lines`).
fn join_with_breaks(lines: &Vec<String>) -> (s: String)
    ensures
        s@ == join_lines(lines@.map_values(|t: String| t@)),
{
    let ghost all = lines@.map_values(|t: String| t@);
    let mut s = String::new();
    let mut i: usize = 0;
    while i < lines.len()
        invariant
            i <= lines@.len(),
            all == lines@.map_values(|t: String| t@),
            s@ == join_lines(all.take(i as int)),
        decreases lines.len() - i,
    {
        proof {
            assert(all.take(i + 1).drop_last() =~= all.take(i as int));
            assert(all.take(i + 1).last() == lines@[i as int]@);
        }
        if i > 0 {
            push_str(&mut s, "\n");
        } else {
            proof {
                assert(all.take(0) =~= Seq::<Seq<char>>::empty());
                assert(all.take(1) =~= seq![all[0]]);
            }
        }
        push_str(&mut s, lines[i].as_str());
        proof {
            if i == 0 {
                assert(s@ =~= lines@[0]@);
            }
        }
        i += 1;
    }
    proof {
        assert(all.take(lines@.len() as int) =~= all);
    }
    s
}

} // verus!
