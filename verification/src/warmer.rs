//! What to prepare ahead of players' conversations: the messages players
//! usually open with, by kind of NPC, a note on the time of day for the
//! models, and a store of ready replies.

use vstd::prelude::*;
use crate::chat::ChatResponse;
use crate::text::{same_text, to_lowercase, lowercase, join3};
use crate::ordering::{lemma_map_push, lemma_take_push};

verus! {

/// The usual opening messages for each kind of NPC.
pub open spec fn default_greetings_spec() -> Seq<(Seq<char>, Seq<Seq<char>>)> {
    seq![
        ("merchant"@, seq!["Hello"@, "What are you selling?"@, "I need supplies"@, "Show me your wares"@]),
        ("guard"@, seq!["Hello"@, "Is everything okay?"@, "Have you seen anything suspicious?"@]),
        ("villager"@, seq!["Hello"@, "Hi"@, "How are you?"@, "What's new?"@]),
        ("quest_giver"@, seq!["Hello"@, "Do you have any quests?"@, "What do you need help with?"@, "Any work for me?"@]),
    ]
}

/// A table of message lists as plain values.
pub open spec fn greetings_view(v: Seq<(String, Vec<String>)>) -> Seq<(Seq<char>, Seq<Seq<char>>)> {
    v.map_values(|p: (String, Vec<String>)| (p.0@, p.1@.map_values(|s: String| s@)))
}

/// The messages listed for `kind`, if any.
pub open spec fn messages_for(g: Seq<(Seq<char>, Seq<Seq<char>>)>, kind: Seq<char>) -> Option<Seq<Seq<char>>> {
    if exists|i: int| 0 <= i < g.len() && g[i].0 == kind {
        Some(g[choose|i: int| 0 <= i < g.len() && g[i].0 == kind].1)
    } else {
        None
    }
}

/// The messages to prepare for an NPC of kind `kind`: its kind's list,
/// else the villagers', else none.
pub open spec fn warmup_for(g: Seq<(Seq<char>, Seq<Seq<char>>)>, kind: Seq<char>) -> Seq<Seq<char>> {
    match messages_for(g, kind) {
        Some(m) => m,
        None => match messages_for(g, "villager"@) {
            Some(m) => m,
            None => Seq::empty(),
        },
    }
}

/// The note on the time of day given to the models, if the time is known.
pub open spec fn time_note(time: Seq<char>) -> Option<Seq<char>> {
    if time == "morning"@ || time == "dawn"@ {
        Some("It's early morning. The NPC should greet warmly with morning-specific phrases."@)
    } else if time == "day"@ || time == "noon"@ {
        Some("It's daytime. The NPC should be active and welcoming."@)
    } else if time == "evening"@ || time == "dusk"@ {
        Some("It's evening. The NPC might be tired or closing shop."@)
    } else if time == "night"@ {
        Some("It's nighttime. The NPC should be sleepy or wary of strangers."@)
    } else {
        None
    }
}

/// The message a player near an NPC of kind `kind` most likely opens with.
pub open spec fn likely_opening(kind: Seq<char>) -> Seq<char> {
    if kind == "merchant"@ {
        "What are you selling?"@
    } else if kind == "quest_giver"@ {
        "Do you have any quests?"@
    } else {
        "Hello"@
    }
}

/// A reply as plain values.
pub open spec fn reply_of(r: ChatResponse) -> (Seq<char>, Seq<char>, Seq<char>, Seq<char>, u64, Option<bool>) {
    (r.response@, r.emotion@, r.animation@, r.source@, r.latency_ms, r.cached)
}

/// A copy of `r`.
pub fn copy_reply(r: &ChatResponse) -> (c: ChatResponse)
    ensures
        reply_of(c) == reply_of(*r),
{
    ChatResponse {
        response: r.response.clone(),
        emotion: r.emotion.clone(),
        animation: r.animation.clone(),
        source: r.source.clone(),
        latency_ms: r.latency_ms,
        cached: r.cached,
    }
}

/// A list of messages made from `items`.
fn strings(items: &[&str]) -> (v: Vec<String>)
    ensures
        v@.map_values(|s: String| s@) == items@.map_values(|s: &str| s@),
{
    let mut v: Vec<String> = Vec::new();
    let mut i: usize = 0;
    while i < items.len()
        invariant
            i <= items@.len(),
            v@.map_values(|s: String| s@) == items@.map_values(|s: &str| s@).take(i as int),
        decreases items.len() - i,
    {
        let ghost before = v@;
        let item = items[i].to_string();
        v.push(item);
        proof {
            lemma_map_push(before, item, |s: String| s@);
            lemma_take_push(items@.map_values(|s: &str| s@), i as int);
        }
        i += 1;
    }
    assert(items@.map_values(|s: &str| s@).take(items@.len() as int) =~= items@.map_values(|s: &str| s@));
    v
}

/// Prepares likely replies ahead of conversations.
pub struct PredictiveCacheWarmer {
    common_greetings: Vec<(String, Vec<String>)>,
    context_templates: Vec<(String, ChatResponse)>,
}

/// The usual opening messages for each kind of NPC (see
/// `default_greetings_spec`).
pub fn default_greetings() -> (g: Vec<(String, Vec<String>)>)
    ensures
        greetings_view(g@) == default_greetings_spec(),
{
    let mut g: Vec<(String, Vec<String>)> = Vec::new();
    g.push(("merchant".to_string(), strings(&["Hello", "What are you selling?", "I need supplies", "Show me your wares"])));
    g.push(("guard".to_string(), strings(&["Hello", "Is everything okay?", "Have you seen anything suspicious?"])));
    g.push(("villager".to_string(), strings(&["Hello", "Hi", "How are you?", "What's new?"])));
    g.push(("quest_giver".to_string(), strings(&["Hello", "Do you have any quests?", "What do you need help with?", "Any work for me?"])));
    proof {
        let gv = greetings_view(g@);
        assert(gv[0].1 =~= seq!["Hello"@, "What are you selling?"@, "I need supplies"@, "Show me your wares"@]);
        assert(gv[1].1 =~= seq!["Hello"@, "Is everything okay?"@, "Have you seen anything suspicious?"@]);
        assert(gv[2].1 =~= seq!["Hello"@, "Hi"@, "How are you?"@, "What's new?"@]);
        assert(gv[3].1 =~= seq!["Hello"@, "Do you have any quests?"@, "What do you need help with?"@, "Any work for me?"@]);
        assert(gv =~= default_greetings_spec());
    }
    g
}

impl PredictiveCacheWarmer {
    /// The opening messages, by kind of NPC.
    pub closed spec fn greetings(&self) -> Seq<(Seq<char>, Seq<Seq<char>>)> {
        greetings_view(self.common_greetings@)
    }

    /// The stored replies, by key, in order of first storage.
    pub closed spec fn templates(&self) -> Seq<(Seq<char>, (Seq<char>, Seq<char>, Seq<char>, Seq<char>, u64, Option<bool>))> {
        self.context_templates@.map_values(|p: (String, ChatResponse)| (p.0@, reply_of(p.1)))
    }

    /// No kind of NPC and no reply key is listed twice.
    pub open spec fn wf(&self) -> bool {
        &&& forall|i: int, j: int| 0 <= i < j < self.greetings().len() ==> self.greetings()[i].0 != self.greetings()[j].0
        &&& forall|i: int, j: int| 0 <= i < j < self.templates().len() ==> self.templates()[i].0 != self.templates()[j].0
    }

    /// A warmer with the usual opening messages and no stored reply.
    pub fn new() -> (w: Self)
        ensures
            w.wf(),
            w.greetings() == default_greetings_spec(),
            w.templates().len() == 0,
    {
        let w = PredictiveCacheWarmer { common_greetings: default_greetings(), context_templates: Vec::new() };
        assert(w.templates() =~= Seq::empty());
        proof {
            reveal_strlit("merchant");
            reveal_strlit("guard");
            reveal_strlit("villager");
            reveal_strlit("quest_giver");
            let g = w.greetings();
            assert(g == default_greetings_spec());
            assert(g[0].0 == "merchant"@ && g[1].0 == "guard"@ && g[2].0 == "villager"@ && g[3].0 == "quest_giver"@);
            assert("merchant"@[0] == 'm' && "guard"@[0] == 'g' && "villager"@[0] == 'v' && "quest_giver"@[0] == 'q');
            assert(g[0].0 != g[1].0);
            assert(g[0].0 != g[2].0);
            assert(g[0].0 != g[3].0);
            assert(g[1].0 != g[2].0);
            assert(g[1].0 != g[3].0);
            assert(g[2].0 != g[3].0);
        }
        w
    }

    /// The messages to prepare for an NPC of kind `npc_kind` (see
    /// `warmup_for`).
    pub fn get_warmup_messages(&self, npc_kind: &str) -> (v: Vec<String>)
        requires
            self.wf(),
        ensures
            v@.map_values(|s: String| s@) == warmup_for(self.greetings(), npc_kind@),
    {
        match self.find_kind(npc_kind) {
            Some(i) => copy_strings(&self.common_greetings[i].1),
            None => match self.find_kind("villager") {
                Some(i) => copy_strings(&self.common_greetings[i].1),
                None => {
                    let v: Vec<String> = Vec::new();
                    assert(v@.map_values(|s: String| s@) =~= Seq::<Seq<char>>::empty());
                    v
                },
            },
        }
    }

    /// The position of the first list for `kind`.
    fn find_kind(&self, kind: &str) -> (r: Option<usize>)
        requires
            self.wf(),
        ensures
            match r {
                Some(i) => i < self.common_greetings@.len() && messages_for(self.greetings(), kind@) == Some(self.greetings()[i as int].1),
                None => messages_for(self.greetings(), kind@) is None,
            },
    {
        let ghost g = self.greetings();
        let mut i: usize = 0;
        while i < self.common_greetings.len()
            invariant
                i <= self.common_greetings@.len(),
                g == self.greetings(),
                g.len() == self.common_greetings@.len(),
                self.wf(),
                forall|j: int| 0 <= j < i ==> g[j].0 != kind@,
            decreases self.common_greetings.len() - i,
        {
            if same_text(self.common_greetings[i].0.as_str(), kind) {
                proof {
                    assert(g[i as int].0 == kind@);
                    let c = choose|c: int| 0 <= c < g.len() && g[c].0 == kind@;
                    assert(c >= i);
                    assert(messages_for(g, kind@) == Some(g[c].1));
                    lemma_first_kind(g, kind@, i as int, c);
                }
                return Some(i);
            }
            i += 1;
        }
        None
    }

    /// The note on the time of day for the models (see `time_note`).
    pub fn time_based_context(time_of_day: &str) -> (r: Option<String>)
        ensures
            match r {
                Some(s) => time_note(time_of_day@) == Some(s@),
                None => time_note(time_of_day@) is None,
            },
    {
        if same_text(time_of_day, "morning") || same_text(time_of_day, "dawn") {
            Some("It's early morning. The NPC should greet warmly with morning-specific phrases.".to_string())
        } else if same_text(time_of_day, "day") || same_text(time_of_day, "noon") {
            Some("It's daytime. The NPC should be active and welcoming.".to_string())
        } else if same_text(time_of_day, "evening") || same_text(time_of_day, "dusk") {
            Some("It's evening. The NPC might be tired or closing shop.".to_string())
        } else if same_text(time_of_day, "night") {
            Some("It's nighttime. The NPC should be sleepy or wary of strangers.".to_string())
        } else {
            None
        }
    }

    /// The message a nearby player most likely opens with, by the NPC's kind.
    pub fn likely_message(npc_kind: &str) -> (m: &'static str)
        ensures
            m@ == likely_opening(npc_kind@),
    {
        if same_text(npc_kind, "merchant") {
            "What are you selling?"
        } else if same_text(npc_kind, "quest_giver") {
            "Do you have any quests?"
        } else {
            "Hello"
        }
    }

    /// Stores `response` under `key`, replacing a reply stored under it.
    pub fn cache_template(&mut self, key: String, response: ChatResponse)
        requires
            old(self).wf(),
        ensures
            final(self).wf(),
            final(self).greetings() == old(self).greetings(),
            final(self).templates() == match key_index(old(self).templates(), key@) {
                Some(i) => old(self).templates().update(i, (key@, reply_of(response))),
                None => old(self).templates().push((key@, reply_of(response))),
            },
    {
        let ghost t = self.templates();
        let ghost g = self.greetings();
        let ghost item = (key@, reply_of(response));
        match self.find_template(key.as_str()) {
            Some(i) => {
                self.context_templates.set(i, (key, response));
                proof {
                    assert(self.greetings() == g);
                    assert(self.templates() =~= t.update(i as int, item));
                    let nt = self.templates();
                    assert forall|a: int, b: int| 0 <= a < b < nt.len() implies nt[a].0 != nt[b].0 by {
                        assert(nt[a].0 == t[a].0);
                        assert(nt[b].0 == t[b].0);
                    }
                }
            },
            None => {
                self.context_templates.push((key, response));
                proof {
                    assert(self.greetings() == g);
                    assert(self.templates() =~= t.push(item));
                    let nt = self.templates();
                    assert forall|a: int, b: int| 0 <= a < b < nt.len() implies nt[a].0 != nt[b].0 by {
                        if b == t.len() {
                            assert(t[a].0 != item.0);
                        }
                    }
                }
            },
        }
    }

    /// The reply stored under `key`, if any.
    pub fn get_template(&self, key: &str) -> (r: Option<ChatResponse>)
        requires
            self.wf(),
        ensures
            match (r, key_index(self.templates(), key@)) {
                (Some(resp), Some(i)) => reply_of(resp) == self.templates()[i].1,
                (None, None) => true,
                _ => false,
            },
    {
        match self.find_template(key) {
            Some(i) => Some(copy_reply(&self.context_templates[i].1)),
            None => None,
        }
    }

    /// The position of `key` among the stored replies.
    fn find_template(&self, key: &str) -> (r: Option<usize>)
        requires
            self.wf(),
        ensures
            match r {
                Some(i) => i < self.context_templates@.len() && key_index(self.templates(), key@) == Some(i as int),
                None => key_index(self.templates(), key@) is None,
            },
    {
        let ghost t = self.templates();
        let mut i: usize = 0;
        while i < self.context_templates.len()
            invariant
                i <= self.context_templates@.len(),
                t == self.templates(),
                t.len() == self.context_templates@.len(),
                self.wf(),
                forall|j: int| 0 <= j < i ==> t[j].0 != key@,
            decreases self.context_templates.len() - i,
        {
            if same_text(self.context_templates[i].0.as_str(), key) {
                proof {
                    assert(t[i as int].0 == key@);
                    let c = choose|c: int| 0 <= c < t.len() && t[c].0 == key@;
                    if c != i as int {
                        if c < i {
                        } else {
                            assert(t[i as int].0 != t[c].0);
                        }
                    }
                }
                return Some(i);
            }
            i += 1;
        }
        None
    }

    /// The key of a stored reply: the NPC, the message in lower case and
    /// the time, separated by `:`.
    pub fn template_key(npc_id: &str, message: &str, time: &str) -> (k: String)
        ensures
            k@ == npc_id@ + ":"@ + lowercase(message@) + ":"@ + time@,
    {
        let lower = to_lowercase(message);
        let head = join3(npc_id, ":", lower.as_str());
        join3(head.as_str(), ":", time)
    }
}

/// The position of `key` among keyed entries, if present.
pub open spec fn key_index<V>(t: Seq<(Seq<char>, V)>, key: Seq<char>) -> Option<int> {
    if exists|i: int| 0 <= i < t.len() && t[i].0 == key {
        Some(choose|i: int| 0 <= i < t.len() && t[i].0 == key)
    } else {
        None
    }
}

/// A copy of a list of messages.
fn copy_strings(v: &Vec<String>) -> (c: Vec<String>)
    ensures
        c@.map_values(|s: String| s@) == v@.map_values(|s: String| s@),
{
    let mut c: Vec<String> = Vec::new();
    let mut i: usize = 0;
    while i < v.len()
        invariant
            i <= v@.len(),
            c@.map_values(|s: String| s@) == v@.map_values(|s: String| s@).take(i as int),
        decreases v.len() - i,
    {
        let ghost before = c@;
        let item = v[i].clone();
        c.push(item);
        proof {
            lemma_map_push(before, item, |s: String| s@);
            lemma_take_push(v@.map_values(|s: String| s@), i as int);
        }
        i += 1;
    }
    assert(v@.map_values(|s: String| s@).take(v@.len() as int) =~= v@.map_values(|s: String| s@));
    c
}

/// When `i` is the first position of `kind` and `c` any position of it,
/// both hold the same list only if `c` is `i`; the lists of the standard
/// table name each kind once, so the first is the one chosen.
proof fn lemma_first_kind(g: Seq<(Seq<char>, Seq<Seq<char>>)>, kind: Seq<char>, i: int, c: int)
    requires
        0 <= i <= c < g.len(),
        g[i].0 == kind,
        g[c].0 == kind,
        forall|j: int| 0 <= j < i ==> g[j].0 != kind,
        forall|a: int, b: int| 0 <= a < b < g.len() ==> g[a].0 != g[b].0,
    ensures
        c == i,
{
    if c > i {
        assert(g[i].0 != g[c].0);
    }
}

} // verus!
