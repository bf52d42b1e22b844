//! How a chat message is answered when no cache holds a reply: small talk
//! from the canned lines, a short template for simple messages, or the
//! language models for anything more involved.

use vstd::prelude::*;
use crate::cache_strategy::CacheStrategy;
use crate::chat::{ChatResponse, make_reply};
use crate::dialogue::{AmbientDialogueManager, classify_spec, normalize, reply_style};
use crate::text::{chars_of, has_text, is_space, char_is_whitespace, lowercase, to_lowercase, join2, join3, seq_contains};

verus! {

/// Number of words in `s`: maximal runs of characters that are not white
/// space.
pub open spec fn word_count(s: Seq<char>) -> nat
    decreases s.len(),
{
    if s.len() == 0 {
        0
    } else {
        let n = s.len() - 1;
        word_count(s.drop_last()) + if !is_space(s[n]) && (n == 0 || is_space(s[n - 1])) { 1nat } else { 0nat }
    }
}

/// The signs of an involved message that are looked for.
pub open spec fn complexity_signs(message: Seq<char>, normalized: Seq<char>) -> Seq<bool> {
    seq![
        word_count(message) > 10,
        seq_contains(message, seq!['?']),
        seq_contains(normalized, "why"@),
        seq_contains(normalized, "how"@),
        seq_contains(normalized, "feel"@),
        seq_contains(normalized, "think"@),
        seq_contains(normalized, "because"@),
        seq_contains(normalized, "what if"@),
        seq_contains(normalized, "explain"@),
    ]
}

/// Number of `true` entries.
pub open spec fn count_true(s: Seq<bool>) -> nat
    decreases s.len(),
{
    if s.len() == 0 {
        0
    } else {
        count_true(s.drop_last()) + if s.last() { 1nat } else { 0nat }
    }
}

/// How involved a message looks: how many of the signs it shows, out of
/// how many looked for. The message counts as simple when fewer than 30% of
/// the signs show.
#[derive(Debug, Clone, Copy, PartialEq, Eq)]
pub struct Complexity {
    pub hits: usize,
    pub of: usize,
}

impl Complexity {
    /// Fewer than 30% of the signs show.
    pub open spec fn is_low_spec(self) -> bool {
        self.hits * 10 < self.of * 3
    }

    /// Fewer than 30% of the signs show.
    pub fn is_low(&self) -> (r: bool)
        requires
            self.of <= 9,
            self.hits <= self.of,
        ensures
            r == self.is_low_spec(),
    {
        self.hits * 10 < self.of * 3
    }
}

/// The canned reply to a simple message, by the first word it contains.
pub open spec fn template_line(normalized: Seq<char>) -> (Seq<char>, Seq<char>, Seq<char>) {
    if seq_contains(normalized, "thank"@) {
        ("You're welcome! I'm here to help."@, "joy"@, "nod"@)
    } else if seq_contains(normalized, "help"@) {
        ("Of course! How can I help you?"@, "joy"@, "talk"@)
    } else if seq_contains(normalized, "where"@) {
        ("I'm not sure about the exact location."@, "neutral"@, "shake"@)
    } else if seq_contains(normalized, "when"@) {
        ("I don't have information about when."@, "neutral"@, "shake"@)
    } else {
        ("Interesting. Tell me more."@, "curiosity"@, "nod"@)
    }
}

/// `r` is the canned small-talk reply to `message`: one of the lines of its
/// kind, with the kind's emotion and animation, from `rust_cache`.
pub open spec fn small_talk_reply(d: AmbientDialogueManager, message: Seq<char>, r: ChatResponse) -> bool {
    match classify_spec(normalize(message)) {
        Some(kind) => {
            &&& exists|i: int| 0 <= i < d.lines(kind).len() && r.response@ == d.lines(kind)[i]@
            &&& (r.emotion@, r.animation@) == reply_style(kind)
            &&& r.source@ == "rust_cache"@
            &&& r.latency_ms == 2
            &&& r.cached == Some(false)
        },
        None => false,
    }
}

/// Where an uncached message is answered.
#[derive(Debug, Clone)]
pub enum Route {
    /// A canned small-talk line.
    SmallTalk(ChatResponse),
    /// A template for a simple message.
    Template(ChatResponse),
    /// The language models.
    Model,
}

/// Routes chat messages that no cache answers.
pub struct RequestRouter {
    ambient_dialogue: AmbientDialogueManager,
}

impl RequestRouter {
    /// The canned lines it answers small talk with are well formed.
    pub open spec fn wf(&self) -> bool {
        self.dialogue().wf()
    }

    /// Its small-talk lines.
    pub closed spec fn dialogue(&self) -> AmbientDialogueManager {
        self.ambient_dialogue
    }

    /// A router with the standard small-talk lines.
    pub fn new() -> (r: Self)
        ensures
            r.wf(),
    {
        RequestRouter { ambient_dialogue: AmbientDialogueManager::new() }
    }

    /// The cache key of a message to an agent: `chat:`, the agent, `:` and
    /// the message in lower case.
    pub fn chat_cache_key(agent_id: &str, message: &str) -> (key: String)
        ensures
            key@ == "chat:"@ + agent_id@ + ":"@ + lowercase(message@),
    {
        let lower = to_lowercase(message);
        let head = join3("chat:", agent_id, ":");
        join2(head.as_str(), lower.as_str())
    }

    /// How many signs of an involved message `message` shows, `normalized`
    /// being its lower-case form.
    pub fn analyze_message_complexity(message: &str, normalized: &str) -> (c: Complexity)
        ensures
            c.of == 9,
            c.hits == count_true(complexity_signs(message@, normalized@)),
            c.hits <= 9,
    {
        let m = chars_of(message);
        let n = chars_of(normalized);
        let words = count_words(&m);
        let signs = [
            words > 10,
            has_text(&m, "?"),
            has_text(&n, "why"),
            has_text(&n, "how"),
            has_text(&n, "feel"),
            has_text(&n, "think"),
            has_text(&n, "because"),
            has_text(&n, "what if"),
            has_text(&n, "explain"),
        ];
        let ghost expected = complexity_signs(message@, normalized@);
        proof {
            reveal_strlit("?");
            assert("?"@ =~= seq!['?']);
            assert(signs@ =~= expected);
        }
        let mut hits: usize = 0;
        let mut i: usize = 0;
        while i < 9
            invariant
                i <= 9,
                signs@ == expected,
                expected.len() == 9,
                hits == count_true(expected.take(i as int)),
                hits <= i,
            decreases 9 - i,
        {
            proof {
                assert(expected.take(i + 1).drop_last() =~= expected.take(i as int));
            }
            if signs[i] {
                hits += 1;
            }
            i += 1;
        }
        proof {
            assert(expected.take(9) =~= expected);
        }
        Complexity { hits, of: 9 }
    }

    /// The canned reply to a simple message (see `template_line`), from
    /// `template`, taking 3 ms.
    pub fn generate_template_response(normalized: &str) -> (r: ChatResponse)
        ensures
            (r.response@, r.emotion@, r.animation@) == template_line(normalized@),
            r.source@ == "template"@,
            r.latency_ms == 3,
            r.cached == Some(false),
    {
        let n = chars_of(normalized);
        let (response, emotion, animation) = if has_text(&n, "thank") {
            ("You're welcome! I'm here to help.", "joy", "nod")
        } else if has_text(&n, "help") {
            ("Of course! How can I help you?", "joy", "talk")
        } else if has_text(&n, "where") {
            ("I'm not sure about the exact location.", "neutral", "shake")
        } else if has_text(&n, "when") {
            ("I don't have information about when.", "neutral", "shake")
        } else {
            ("Interesting. Tell me more.", "curiosity", "nod")
        };
        make_reply(response.to_string(), emotion, animation, "template", 3, Some(false))
    }

    /// Where a message that no cache answers goes: small talk first, then
    /// a template when the message is simple, else the language models.
    pub fn route(&self, message: &str) -> (r: Route)
        requires
            self.wf(),
        ensures
            (r is SmallTalk) <==> classify_spec(normalize(message@)) is Some,
            match r {
                Route::SmallTalk(t) => small_talk_reply(self.dialogue(), message@, t),
                Route::Template(t) => {
                    let c = count_true(complexity_signs(message@, lowercase(message@)));
                    &&& c * 10 < 27
                    &&& (t.response@, t.emotion@, t.animation@) == template_line(lowercase(message@))
                    &&& t.source@ == "template"@
                },
                Route::Model => classify_spec(normalize(message@)) is None
                    && count_true(complexity_signs(message@, lowercase(message@))) * 10 >= 27,
            },
    {
        match self.ambient_dialogue.try_simple_response(message) {
            Some(simple) => Route::SmallTalk(simple),
            None => {
                let normalized = to_lowercase(message);
                let complexity = Self::analyze_message_complexity(message, normalized.as_str());
                if complexity.is_low() {
                    Route::Template(Self::generate_template_response(normalized.as_str()))
                } else {
                    Route::Model
                }
            },
        }
    }

    /// How long a reply routed as `r` is cached, in seconds.
    pub fn reply_ttl(r: &Route) -> (ttl: u64)
        ensures
            ttl == match r {
                Route::Model => CacheStrategy::AI_CHAT_TTL,
                _ => CacheStrategy::SIMPLE_CHAT_TTL,
            },
    {
        match r {
            Route::Model => CacheStrategy::AI_CHAT_TTL,
            _ => CacheStrategy::SIMPLE_CHAT_TTL,
        }
    }
}

/// What answering a chat message asks for next.
#[derive(Debug, Clone)]
pub enum ChatAction {
    /// Look the message's cache key up in the memory cache.
    LookUpMemory,
    /// Look the message's cache key up in Redis.
    LookUpRedis,
    /// Ask the language models.
    AskModels,
    /// Ask the backend service.
    AskBackend,
    /// Answer with `response`, marked as served from a cache when
    /// `mark_cached`; first put it in the memory cache when `remember`, and
    /// in Redis for `store_for` seconds when that is given.
    Reply { response: ChatResponse, mark_cached: bool, remember: bool, store_for: Option<u64> },
    /// Give up: the backend failed too.
    Fail,
}

/// What came back from the last thing asked for.
#[derive(Debug, Clone)]
pub enum ChatEvent {
    /// A message arrived.
    Started,
    /// The memory cache's answer.
    MemoryLookedUp(Option<ChatResponse>),
    /// Redis's answer; a failed lookup counts as a miss.
    RedisLookedUp(Option<ChatResponse>),
    /// The language models' reply, `None` when they failed.
    ModelsAnswered(Option<ChatResponse>),
    /// The backend's reply, `None` when it failed.
    BackendAnswered(Option<ChatResponse>),
}

impl RequestRouter {
    /// The next step in answering `message`: the memory cache, then Redis
    /// (a hit there is also remembered in memory), then the route: small
    /// talk and templates are remembered and stored for
    /// `SIMPLE_CHAT_TTL`; a model's reply, or the backend's when the models
    /// fail, is stored in Redis for `AI_CHAT_TTL`.
    pub fn chat_step(&self, message: &str, event: ChatEvent) -> (a: ChatAction)
        requires
            self.wf(),
        ensures
            match event {
                ChatEvent::Started => a is LookUpMemory,
                ChatEvent::MemoryLookedUp(Some(r)) =>
                    a == (ChatAction::Reply { response: r, mark_cached: true, remember: false, store_for: None }),
                ChatEvent::MemoryLookedUp(None) => a is LookUpRedis,
                ChatEvent::RedisLookedUp(Some(r)) =>
                    a == (ChatAction::Reply { response: r, mark_cached: true, remember: true, store_for: None }),
                ChatEvent::RedisLookedUp(None) => {
                    let c = count_true(complexity_signs(message@, lowercase(message@)));
                    &&& (a is AskModels) <==> (classify_spec(normalize(message@)) is None && c * 10 >= 27)
                    &&& (a is AskModels) || (a is Reply)
                    &&& a matches ChatAction::Reply { response, mark_cached, remember, store_for } ==> {
                        &&& !mark_cached
                        &&& remember
                        &&& store_for == Some(CacheStrategy::SIMPLE_CHAT_TTL)
                        &&& classify_spec(normalize(message@)) is Some ==> small_talk_reply(self.dialogue(), message@, response)
                        &&& classify_spec(normalize(message@)) is None ==> {
                            &&& (response.response@, response.emotion@, response.animation@) == template_line(lowercase(message@))
                            &&& response.source@ == "template"@
                        }
                    }
                },
                ChatEvent::ModelsAnswered(Some(r)) =>
                    a == (ChatAction::Reply { response: r, mark_cached: false, remember: false, store_for: Some(CacheStrategy::AI_CHAT_TTL) }),
                ChatEvent::ModelsAnswered(None) => a is AskBackend,
                ChatEvent::BackendAnswered(Some(r)) =>
                    a == (ChatAction::Reply { response: r, mark_cached: false, remember: false, store_for: Some(CacheStrategy::AI_CHAT_TTL) }),
                ChatEvent::BackendAnswered(None) => a is Fail,
            },
    {
        match event {
            ChatEvent::Started => ChatAction::LookUpMemory,
            ChatEvent::MemoryLookedUp(Some(r)) => ChatAction::Reply { response: r, mark_cached: true, remember: false, store_for: None },
            ChatEvent::MemoryLookedUp(None) => ChatAction::LookUpRedis,
            ChatEvent::RedisLookedUp(Some(r)) => ChatAction::Reply { response: r, mark_cached: true, remember: true, store_for: None },
            ChatEvent::RedisLookedUp(None) => {
                let route = self.route(message);
                let ttl = Self::reply_ttl(&route);
                match route {
                    Route::SmallTalk(t) => ChatAction::Reply { response: t, mark_cached: false, remember: true, store_for: Some(ttl) },
                    Route::Template(t) => ChatAction::Reply { response: t, mark_cached: false, remember: true, store_for: Some(ttl) },
                    Route::Model => ChatAction::AskModels,
                }
            },
            ChatEvent::ModelsAnswered(Some(r)) => ChatAction::Reply { response: r, mark_cached: false, remember: false, store_for: Some(CacheStrategy::AI_CHAT_TTL) },
            ChatEvent::ModelsAnswered(None) => ChatAction::AskBackend,
            ChatEvent::BackendAnswered(Some(r)) => ChatAction::Reply { response: r, mark_cached: false, remember: false, store_for: Some(CacheStrategy::AI_CHAT_TTL) },
            ChatEvent::BackendAnswered(None) => ChatAction::Fail,
        }
    }
}

/// A cached reply as served again: the same reply, marked as cached.
pub fn served_from_cache(r: ChatResponse) -> (s: ChatResponse)
    ensures
        s.response == r.response,
        s.emotion == r.emotion,
        s.animation == r.animation,
        s.source == r.source,
        s.latency_ms == r.latency_ms,
        s.cached == Some(true),
{
    ChatResponse { cached: Some(true), ..r }
}

/// Number of words in `s` (see `word_count`).
pub fn count_words(s: &Vec<char>) -> (n: usize)
    ensures
        n == word_count(s@),
{
    let mut n: usize = 0;
    let mut i: usize = 0;
    while i < s.len()
        invariant
            i <= s@.len(),
            n == word_count(s@.take(i as int)),
            n <= i,
        decreases s.len() - i,
    {
        let starts = !char_is_whitespace(s[i]) && (i == 0 || char_is_whitespace(s[i - 1]));
        proof {
            let t = s@.take(i + 1);
            assert(t.drop_last() =~= s@.take(i as int));
            assert(t[i as int] == s@[i as int]);
            if i > 0 {
                assert(t[i - 1] == s@[i - 1]);
            }
        }
        if starts {
            n += 1;
        }
        i += 1;
    }
    proof {
        assert(s@.take(s@.len() as int) =~= s@);
    }
    n
}

} // verus!
