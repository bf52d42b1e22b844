//! Canned replies to small talk and scripted background conversations.

use vstd::prelude::*;
use rand::seq::SliceRandom;
use crate::chat::{AmbientDialogue, ChatResponse, make_line, make_reply};
use crate::text::{
    begins_with, chars_of, finishes_with, has_text, is_text, lowercase, seq_contains,
    seq_ends_with, seq_starts_with, to_lowercase, trim, trimmed_chars, string_of,
};

verus! {

/// The kinds of small talk that get a canned reply.
#[derive(Debug, Clone, Copy, PartialEq, Eq)]
pub enum SmallTalk {
    Greeting,
    Farewell,
    Wellbeing,
    Acknowledgment,
}

/// `t` is the greeting word `g` alone, or `g` followed by a space or comma.
pub open spec fn opens_with_word(t: Seq<char>, g: Seq<char>, g_space: Seq<char>, g_comma: Seq<char>) -> bool {
    t == g || seq_starts_with(t, g_space) || seq_starts_with(t, g_comma)
}

/// "hi" standing as a word of its own somewhere in `m`.
pub open spec fn hi_as_word(m: Seq<char>) -> bool {
    &&& seq_contains(m, "hi"@)
    &&& seq_starts_with(m, "hi"@) || seq_contains(m, " hi"@)
    &&& seq_ends_with(m, "hi"@) || seq_contains(m, "hi "@)
}

/// A normalized message reads as a greeting.
pub open spec fn is_greeting_spec(m: Seq<char>) -> bool {
    let t = trim(m);
    ||| opens_with_word(t, "hello"@, "hello "@, "hello,"@)
    ||| hi_as_word(m)
    ||| opens_with_word(t, "hey "@, "hey  "@, "hey ,"@)
    ||| opens_with_word(t, "good morning"@, "good morning "@, "good morning,"@)
    ||| opens_with_word(t, "hi"@, "hi "@, "hi,"@)
    ||| opens_with_word(t, "greetings"@, "greetings "@, "greetings,"@)
    ||| t == "hi"@
    ||| t == "hey"@
}

/// A normalized message reads as a farewell.
pub open spec fn is_farewell_spec(m: Seq<char>) -> bool {
    ||| seq_contains(m, "goodbye"@)
    ||| seq_contains(m, "bye"@)
    ||| seq_contains(m, "see you"@)
    ||| seq_contains(m, "farewell"@)
    ||| seq_contains(m, "later"@)
}

/// A normalized message asks how the NPC is.
pub open spec fn is_wellbeing_spec(m: Seq<char>) -> bool {
    ||| seq_contains(m, "how are you"@)
    ||| seq_contains(m, "how's it going"@)
    ||| seq_contains(m, "how are you doing"@)
}

/// A normalized message is a bare acknowledgment.
pub open spec fn is_acknowledgment_spec(m: Seq<char>) -> bool {
    ||| m == "ok"@
    ||| m == "okay"@
    ||| m == "yes"@
    ||| m == "sure"@
    ||| m == "alright"@
}

/// The kind of small talk a normalized message is, tested in this order.
pub open spec fn classify_spec(m: Seq<char>) -> Option<SmallTalk> {
    if is_greeting_spec(m) {
        Some(SmallTalk::Greeting)
    } else if is_farewell_spec(m) {
        Some(SmallTalk::Farewell)
    } else if is_wellbeing_spec(m) {
        Some(SmallTalk::Wellbeing)
    } else if is_acknowledgment_spec(m) {
        Some(SmallTalk::Acknowledgment)
    } else {
        None
    }
}

/// The message as the manager compares it: trimmed, then lower-cased.
pub open spec fn normalize(message: Seq<char>) -> Seq<char> {
    lowercase(trim(message))
}

/// Emotion and animation of the canned reply of each kind.
pub open spec fn reply_style(kind: SmallTalk) -> (Seq<char>, Seq<char>) {
    match kind {
        SmallTalk::Greeting => ("joy"@, "wave"@),
        SmallTalk::Farewell => ("joy"@, "wave"@),
        SmallTalk::Wellbeing => ("joy"@, "talk"@),
        SmallTalk::Acknowledgment => ("neutral"@, "nod"@),
    }
}

/// `SliceRandom::choose` from `rand`, with the thread's generator: one of
/// the lines, picked at random. Which one is not stated.
#[verifier::external_body]
fn choose_line(lines: &Vec<&'static str>) -> (r: &'static str)
    requires
        lines@.len() > 0,
    ensures
        lines@.contains(r),
{
    lines.choose(&mut rand::thread_rng()).unwrap()
}

/// Answers greetings, farewells and the like without calling a model.
pub struct AmbientDialogueManager {
    greetings: Vec<&'static str>,
    farewells: Vec<&'static str>,
    wellbeing_responses: Vec<&'static str>,
    acknowledgments: Vec<&'static str>,
}

impl AmbientDialogueManager {
    /// The lines used to answer each kind of small talk.
    pub closed spec fn lines(&self, kind: SmallTalk) -> Seq<&'static str> {
        match kind {
            SmallTalk::Greeting => self.greetings@,
            SmallTalk::Farewell => self.farewells@,
            SmallTalk::Wellbeing => self.wellbeing_responses@,
            SmallTalk::Acknowledgment => self.acknowledgments@,
        }
    }

    /// Every kind has at least one line.
    pub closed spec fn wf(&self) -> bool {
        &&& self.greetings@.len() > 0
        &&& self.farewells@.len() > 0
        &&& self.wellbeing_responses@.len() > 0
        &&& self.acknowledgments@.len() > 0
    }

    /// The manager with its built-in lines.
    pub fn new() -> (m: Self)
        ensures
            m.wf(),
            m.lines(SmallTalk::Greeting) == seq!["Hello! How can I help?", "Hey there!", "Greetings, traveler!", "Good to see you!", "Welcome!"],
            m.lines(SmallTalk::Farewell) == seq!["Goodbye! Have a great day!", "See you later!", "Take care!", "Farewell!", "Until next time!"],
            m.lines(SmallTalk::Wellbeing) == seq!["I'm doing great, thanks for asking!", "Pretty good, how about you?", "Excellent! How are you?", "All good here!", "Doing well, thank you!"],
            m.lines(SmallTalk::Acknowledgment) == seq!["Understood.", "Okay.", "Sure thing.", "Got it.", "Right."],
    {
        AmbientDialogueManager {
            greetings: vec![
                "Hello! How can I help?",
                "Hey there!",
                "Greetings, traveler!",
                "Good to see you!",
                "Welcome!",
            ],
            farewells: vec![
                "Goodbye! Have a great day!",
                "See you later!",
                "Take care!",
                "Farewell!",
                "Until next time!",
            ],
            wellbeing_responses: vec![
                "I'm doing great, thanks for asking!",
                "Pretty good, how about you?",
                "Excellent! How are you?",
                "All good here!",
                "Doing well, thank you!",
            ],
            acknowledgments: vec!["Understood.", "Okay.", "Sure thing.", "Got it.", "Right."],
        }
    }

    /// Whether the normalized message `msg` is a greeting.
    pub fn is_greeting(&self, msg: &str) -> (r: bool)
        ensures
            r == is_greeting_spec(msg@),
    {
        let m = chars_of(msg);
        let t = trimmed_chars(msg);
        let word = |g: &str, gs: &str, gc: &str| -> (b: bool)
            ensures
                b == opens_with_word(t@, g@, gs@, gc@),
            { is_text(&t, g) || begins_with(&t, gs) || begins_with(&t, gc) };
        word("hello", "hello ", "hello,")
            || (has_text(&m, "hi") && (begins_with(&m, "hi") || has_text(&m, " hi")) && (finishes_with(&m, "hi") || has_text(&m, "hi ")))
            || word("hey ", "hey  ", "hey ,")
            || word("good morning", "good morning ", "good morning,")
            || word("hi", "hi ", "hi,")
            || word("greetings", "greetings ", "greetings,")
            || is_text(&t, "hi")
            || is_text(&t, "hey")
    }

    /// Whether the normalized message `msg` is a farewell.
    pub fn is_farewell(&self, msg: &str) -> (r: bool)
        ensures
            r == is_farewell_spec(msg@),
    {
        let m = chars_of(msg);
        has_text(&m, "goodbye") || has_text(&m, "bye") || has_text(&m, "see you") || has_text(&m, "farewell") || has_text(&m, "later")
    }

    /// Whether the normalized message `msg` asks how the NPC is.
    pub fn is_wellbeing_question(&self, msg: &str) -> (r: bool)
        ensures
            r == is_wellbeing_spec(msg@),
    {
        let m = chars_of(msg);
        has_text(&m, "how are you") || has_text(&m, "how's it going") || has_text(&m, "how are you doing")
    }

    /// Whether the normalized message `msg` is a bare acknowledgment.
    pub fn is_simple_acknowledgment(&self, msg: &str) -> (r: bool)
        ensures
            r == is_acknowledgment_spec(msg@),
    {
        let m = chars_of(msg);
        is_text(&m, "ok") || is_text(&m, "okay") || is_text(&m, "yes") || is_text(&m, "sure") || is_text(&m, "alright")
    }

    /// The kind of small talk the normalized message `msg` is, if any.
    pub fn classify(&self, msg: &str) -> (r: Option<SmallTalk>)
        ensures
            r == classify_spec(msg@),
    {
        if self.is_greeting(msg) {
            Some(SmallTalk::Greeting)
        } else if self.is_farewell(msg) {
            Some(SmallTalk::Farewell)
        } else if self.is_wellbeing_question(msg) {
            Some(SmallTalk::Wellbeing)
        } else if self.is_simple_acknowledgment(msg) {
            Some(SmallTalk::Acknowledgment)
        } else {
            None
        }
    }

    /// The canned reply of kind `kind` that says `line`.
    pub fn reply(kind: SmallTalk, line: &str) -> (r: ChatResponse)
        ensures
            r.response@ == line@,
            (r.emotion@, r.animation@) == reply_style(kind),
            r.source@ == "rust_cache"@,
            r.latency_ms == 2,
            r.cached == Some(false),
    {
        let (emotion, animation) = match kind {
            SmallTalk::Greeting => ("joy", "wave"),
            SmallTalk::Farewell => ("joy", "wave"),
            SmallTalk::Wellbeing => ("joy", "talk"),
            SmallTalk::Acknowledgment => ("neutral", "nod"),
        };
        make_reply(line.to_string(), emotion, animation, "rust_cache", 2, Some(false))
    }

    /// A canned reply to `message` when it is small talk: one of the lines of
    /// its kind, picked at random.
    pub fn try_simple_response(&self, message: &str) -> (r: Option<ChatResponse>)
        requires
            self.wf(),
        ensures
            match (r, classify_spec(normalize(message@))) {
                (None, None) => true,
                (Some(resp), Some(kind)) => {
                    &&& exists|i: int| 0 <= i < self.lines(kind).len() && resp.response@ == self.lines(kind)[i]@
                    &&& (resp.emotion@, resp.animation@) == reply_style(kind)
                    &&& resp.source@ == "rust_cache"@
                    &&& resp.latency_ms == 2
                    &&& resp.cached == Some(false)
                },
                _ => false,
            },
    {
        let trimmed = trimmed_chars(message);
        let trimmed_text = string_of(&trimmed, 0, trimmed.len());
        proof {
            assert(trimmed@.subrange(0, trimmed@.len() as int) =~= trimmed@);
        }
        let normalized = to_lowercase(trimmed_text.as_str());
        let kind = match self.classify(normalized.as_str()) {
            None => return None,
            Some(k) => k,
        };
        let line = match kind {
            SmallTalk::Greeting => choose_line(&self.greetings),
            SmallTalk::Farewell => choose_line(&self.farewells),
            SmallTalk::Wellbeing => choose_line(&self.wellbeing_responses),
            SmallTalk::Acknowledgment => choose_line(&self.acknowledgments),
        };
        proof {
            let i = choose|i: int| 0 <= i < self.lines(kind).len() && self.lines(kind)[i] == line;
            assert(0 <= i < self.lines(kind).len() && self.lines(kind)[i]@ == line@);
        }
        Some(Self::reply(kind, line))
    }

    /// Scripted background lines for a scene; the participants are not used.
    pub fn generate_ambient_dialogues(&self, participant_ids: &[String], context: &str) -> (v: Vec<AmbientDialogue>)
        ensures
            v@.len() == ambient_script(context@).len(),
            forall|i: int| 0 <= i < v@.len() ==> {
                let (speaker, message, emotion, animation) = #[trigger] ambient_script(context@)[i];
                &&& v@[i].speaker_id@ == speaker
                &&& v@[i].message@ == message
                &&& v@[i].emotion@ == emotion
                &&& v@[i].animation@ == animation
            },
    {
        let c = chars_of(context);
        if is_text(&c, "tavern") {
            vec![
                make_line("npc1", "Barkeep, another round please!", "joy", "talk"),
                make_line("npc2", "Have you heard the news from the kingdom?", "curiosity", "talk"),
            ]
        } else if is_text(&c, "marketplace") {
            vec![
                make_line("merchant1", "Fresh apples! Best in the kingdom!", "joy", "point"),
                make_line("customer1", "How much for the bread?", "neutral", "talk"),
            ]
        } else if is_text(&c, "forest") {
            vec![make_line("ranger1", "Be careful, there are wolves around here.", "concern", "point")]
        } else {
            vec![make_line("npc1", "How's your day going?", "neutral", "talk")]
        }
    }
}

impl Default for AmbientDialogueManager {
    fn default() -> (m: Self)
        ensures
            m.wf(),
    {
        Self::new()
    }
}

/// The scripted lines of each scene: speaker, text, emotion, animation.
pub open spec fn ambient_script(context: Seq<char>) -> Seq<(Seq<char>, Seq<char>, Seq<char>, Seq<char>)> {
    if context == "tavern"@ {
        seq![
            ("npc1"@, "Barkeep, another round please!"@, "joy"@, "talk"@),
            ("npc2"@, "Have you heard the news from the kingdom?"@, "curiosity"@, "talk"@),
        ]
    } else if context == "marketplace"@ {
        seq![
            ("merchant1"@, "Fresh apples! Best in the kingdom!"@, "joy"@, "point"@),
            ("customer1"@, "How much for the bread?"@, "neutral"@, "talk"@),
        ]
    } else if context == "forest"@ {
        seq![("ranger1"@, "Be careful, there are wolves around here."@, "concern"@, "point"@)]
    } else {
        seq![("npc1"@, "How's your day going?"@, "neutral"@, "talk"@)]
    }
}

} // verus!
