//! Instant replies built from templates, and the data that cache warming
//! works from.

use vstd::prelude::*;
use crate::chat::{ChatResponse, make_reply};
use crate::text::{chars_of, has_text, is_text, join3, lowercase, seq_contains, to_lowercase};

verus! {

/// The phrase that starts and ends a greeting at each time of day.
pub open spec fn greeting_frame(time_of_day: Seq<char>) -> (Seq<char>, Seq<char>) {
    if time_of_day == "morning"@ || time_of_day == "dawn"@ {
        ("Good morning! I'm "@, ", how may I help you today?"@)
    } else if time_of_day == "day"@ || time_of_day == "noon"@ {
        ("Hello! I'm "@, ", what brings you here?"@)
    } else if time_of_day == "evening"@ || time_of_day == "dusk"@ {
        ("Good evening. I'm "@, ". How can I assist you?"@)
    } else if time_of_day == "night"@ {
        ("*yawns* Oh, hello. I'm "@, ". It's quite late..."@)
    } else {
        ("Hello! I'm "@, "."@)
    }
}

/// Which template a message to an NPC of kind `kind` calls for, if any.
pub enum TemplateKind {
    Greeting,
    Merchant,
    Guard,
}

/// The template chosen for a lower-cased message `m` to an NPC of kind `kind`.
pub open spec fn template_choice(kind: Seq<char>, m: Seq<char>) -> Option<TemplateKind> {
    if seq_contains(m, "hello"@) || seq_contains(m, "hi"@) || m == "greet"@ {
        if kind == "merchant"@ {
            Some(TemplateKind::Merchant)
        } else if kind == "guard"@ {
            Some(TemplateKind::Guard)
        } else {
            Some(TemplateKind::Greeting)
        }
    } else if kind == "merchant"@ && (seq_contains(m, "sell"@) || seq_contains(m, "buy"@) || seq_contains(m, "shop"@)) {
        Some(TemplateKind::Merchant)
    } else {
        None
    }
}

/// `r` is the time-of-day greeting of `npc_name`.
pub open spec fn is_greeting_reply(r: ChatResponse, npc_name: Seq<char>, time_of_day: Seq<char>) -> bool {
    &&& r.response@ == greeting_frame(time_of_day).0 + npc_name + greeting_frame(time_of_day).1
    &&& r.emotion@ == "neutral"@
    &&& r.animation@ == "wave"@
    &&& r.source@ == "template"@
    &&& r.latency_ms == 0
    &&& r.cached == Some(true)
}

/// `r` is the merchant greeting of `npc_name`.
pub open spec fn is_merchant_reply(r: ChatResponse, npc_name: Seq<char>) -> bool {
    &&& r.response@ == "Welcome! I'm "@ + npc_name + ", the merchant. Looking for supplies? I have the finest goods!"@
    &&& r.emotion@ == "cheerful"@
    &&& r.animation@ == "wave"@
    &&& r.source@ == "template"@
    &&& r.latency_ms == 0
    &&& r.cached == Some(true)
}

/// `r` is the guard greeting of `npc_name`.
pub open spec fn is_guard_reply(r: ChatResponse, npc_name: Seq<char>) -> bool {
    &&& r.response@ == "Halt! I'm "@ + npc_name + ", city guard. State your business."@
    &&& r.emotion@ == "serious"@
    &&& r.animation@ == "nod"@
    &&& r.source@ == "template"@
    &&& r.latency_ms == 0
    &&& r.cached == Some(true)
}

/// Response template generator: instant replies for common patterns.
pub struct ResponseTemplates;

impl ResponseTemplates {
    /// A greeting from `npc_name` suited to the time of day.
    pub fn greeting(npc_name: &str, time_of_day: &str) -> (r: ChatResponse)
        ensures
            is_greeting_reply(r, npc_name@, time_of_day@),
    {
        let t = chars_of(time_of_day);
        let message = if is_text(&t, "morning") || is_text(&t, "dawn") {
            join3("Good morning! I'm ", npc_name, ", how may I help you today?")
        } else if is_text(&t, "day") || is_text(&t, "noon") {
            join3("Hello! I'm ", npc_name, ", what brings you here?")
        } else if is_text(&t, "evening") || is_text(&t, "dusk") {
            join3("Good evening. I'm ", npc_name, ". How can I assist you?")
        } else if is_text(&t, "night") {
            join3("*yawns* Oh, hello. I'm ", npc_name, ". It's quite late...")
        } else {
            join3("Hello! I'm ", npc_name, ".")
        };
        make_reply(message, "neutral", "wave", "template", 0, Some(true))
    }

    /// A merchant's greeting.
    pub fn merchant_greeting(npc_name: &str) -> (r: ChatResponse)
        ensures
            is_merchant_reply(r, npc_name@),
    {
        let message = join3("Welcome! I'm ", npc_name, ", the merchant. Looking for supplies? I have the finest goods!");
        make_reply(message, "cheerful", "wave", "template", 0, Some(true))
    }

    /// A city guard's greeting.
    pub fn guard_greeting(npc_name: &str) -> (r: ChatResponse)
        ensures
            is_guard_reply(r, npc_name@),
    {
        let message = join3("Halt! I'm ", npc_name, ", city guard. State your business.");
        make_reply(message, "serious", "nod", "template", 0, Some(true))
    }

    /// The template reply, if one fits, to `message` sent to an NPC of kind
    /// `npc_kind` named `npc_name` at time of day `time`.
    pub fn get_template(npc_kind: &str, npc_name: &str, message: &str, time: &str) -> (r: Option<ChatResponse>)
        ensures
            match (r, template_choice(npc_kind@, lowercase(message@))) {
                (None, None) => true,
                (Some(resp), Some(TemplateKind::Greeting)) => is_greeting_reply(resp, npc_name@, time@),
                (Some(resp), Some(TemplateKind::Merchant)) => is_merchant_reply(resp, npc_name@),
                (Some(resp), Some(TemplateKind::Guard)) => is_guard_reply(resp, npc_name@),
                _ => false,
            },
    {
        let lower = to_lowercase(message);
        let m = chars_of(lower.as_str());
        let k = chars_of(npc_kind);
        if has_text(&m, "hello") || has_text(&m, "hi") || is_text(&m, "greet") {
            if is_text(&k, "merchant") {
                return Some(Self::merchant_greeting(npc_name));
            } else if is_text(&k, "guard") {
                return Some(Self::guard_greeting(npc_name));
            } else {
                return Some(Self::greeting(npc_name, time));
            }
        }
        if is_text(&k, "merchant") {
            if has_text(&m, "sell") || has_text(&m, "buy") || has_text(&m, "shop") {
                return Some(Self::merchant_greeting(npc_name));
            }
        }
        None
    }
}

} // verus!
