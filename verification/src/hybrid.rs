//! Choosing between an instant template reply and a model-generated one.

use vstd::prelude::*;
use crate::chat::ChatResponse;
use crate::templates::{ResponseTemplates, TemplateKind, template_choice, is_greeting_reply, is_merchant_reply, is_guard_reply};
use crate::text::lowercase;

verus! {

/// Where the first reply of a hybrid answer came from.
#[derive(Debug, Clone, Copy, PartialEq, Eq)]
pub enum ResponseQuality {
    Template,
    AI,
}

/// A reply, whether it came from a template or a model, and whether a model
/// reply may still replace it.
#[derive(Debug, Clone)]
pub struct HybridResponse {
    pub initial: ChatResponse,
    pub quality: ResponseQuality,
    pub upgrade_available: bool,
}

impl HybridResponse {
    /// A template reply, which a model reply may later replace.
    pub fn template(response: ChatResponse) -> (h: Self)
        ensures
            h.initial == response,
            h.quality == ResponseQuality::Template,
            h.upgrade_available,
    {
        HybridResponse { initial: response, quality: ResponseQuality::Template, upgrade_available: true }
    }

    /// A model reply, which is final.
    pub fn ai(response: ChatResponse) -> (h: Self)
        ensures
            h.initial == response,
            h.quality == ResponseQuality::AI,
            !h.upgrade_available,
    {
        HybridResponse { initial: response, quality: ResponseQuality::AI, upgrade_available: false }
    }
}

/// The part of the day that a game clock reading (in ticks) falls in;
/// "day" when the clock is unknown.
pub open spec fn day_part(time_of_day: Option<u64>) -> Seq<char> {
    match time_of_day {
        None => "day"@,
        Some(t) => if t < 6000 {
            "morning"@
        } else if t < 12000 {
            "day"@
        } else if t < 18000 {
            "evening"@
        } else {
            "night"@
        },
    }
}

/// The part of the day that a game clock reading falls in.
pub fn day_part_label(time_of_day: Option<u64>) -> (label: &'static str)
    ensures
        label@ == day_part(time_of_day),
{
    match time_of_day {
        None => "day",
        Some(t) => if t < 6000 {
            "morning"
        } else if t < 12000 {
            "day"
        } else if t < 18000 {
            "evening"
        } else {
            "night"
        },
    }
}

/// `r` is the template reply for `message` to an NPC of kind `npc_kind`
/// named `npc_name` in the given part of the day: the fitting template, or
/// the time-of-day greeting when none fits.
pub open spec fn is_template_reply(r: ChatResponse, npc_kind: Seq<char>, npc_name: Seq<char>, message: Seq<char>, part: Seq<char>) -> bool {
    match template_choice(npc_kind, lowercase(message)) {
        Some(TemplateKind::Merchant) => is_merchant_reply(r, npc_name),
        Some(TemplateKind::Guard) => is_guard_reply(r, npc_name),
        _ => is_greeting_reply(r, npc_name, part),
    }
}

/// Builds hybrid replies.
pub struct HybridResponseManager;

impl HybridResponseManager {
    /// The instant template reply sent before any model reply: the fitting
    /// template, else the time-of-day greeting.
    pub fn instant_response(npc_name: &str, npc_kind: &str, message: &str, time_of_day: Option<u64>) -> (h: HybridResponse)
        ensures
            h.quality == ResponseQuality::Template,
            h.upgrade_available,
            is_template_reply(h.initial, npc_kind@, npc_name@, message@, day_part(time_of_day)),
    {
        let part = day_part_label(time_of_day);
        let template = match ResponseTemplates::get_template(npc_kind, npc_name, message, part) {
            Some(t) => t,
            None => ResponseTemplates::greeting(npc_name, part),
        };
        HybridResponse::template(template)
    }
}

/// Decides when a reply must come fast.
pub struct UrgencyDetector;

impl UrgencyDetector {
    /// Urgent when more than 5 players are near, more than 10 conversations
    /// run, or the player moves fast (over 5 blocks per second, which the
    /// caller measures).
    pub fn is_urgent(player_count_nearby: usize, active_conversations: usize, moving_fast: bool) -> (r: bool)
        ensures
            r == (player_count_nearby > 5 || active_conversations > 10 || moving_fast),
    {
        if player_count_nearby > 5 {
            return true;
        }
        if active_conversations > 10 {
            return true;
        }
        if moving_fast {
            return true;
        }
        false
    }

    /// The longest wait, in milliseconds, that a reply may take.
    pub fn max_acceptable_latency_ms(player_count: usize, conversation_depth: usize) -> (ms: u64)
        ensures
            ms == if conversation_depth == 0 {
                50u64
            } else if conversation_depth > 3 {
                20u64
            } else if player_count > 10 {
                10u64
            } else {
                30u64
            },
    {
        if conversation_depth == 0 {
            return 50;
        }
        if conversation_depth > 3 {
            return 20;
        }
        if player_count > 10 {
            return 10;
        }
        30
    }
}

/// How the attempt to get a model reply ended.
pub enum AiAttempt {
    /// The model answered in time.
    Answered(ChatResponse),
    /// The model failed.
    Failed,
    /// The model did not answer within the threshold.
    TimedOut,
}

/// Waits a bounded time for a model reply, else answers from a template.
pub struct SmartChatHandler {
    template_threshold_ms: u64,
}

impl SmartChatHandler {
    /// The longest wait for a model reply, in milliseconds.
    pub closed spec fn threshold(&self) -> u64 {
        self.template_threshold_ms
    }

    /// A handler that waits at most `template_threshold_ms` for the model.
    pub fn new(template_threshold_ms: u64) -> (h: Self)
        ensures
            h.threshold() == template_threshold_ms,
    {
        SmartChatHandler { template_threshold_ms }
    }

    /// The longest wait for a model reply, in milliseconds.
    pub fn template_threshold_ms(&self) -> (ms: u64)
        ensures
            ms == self.threshold(),
    {
        self.template_threshold_ms
    }

    /// The reply once the model attempt is over: the model's reply when it
    /// answered, else the template reply.
    pub fn resolve(&self, attempt: AiAttempt, npc_name: &str, npc_kind: &str, message: &str, time_of_day: Option<u64>) -> (h: HybridResponse)
        ensures
            match attempt {
                AiAttempt::Answered(r) => h.initial == r && h.quality == ResponseQuality::AI && !h.upgrade_available,
                _ => h.quality == ResponseQuality::Template && h.upgrade_available
                    && is_template_reply(h.initial, npc_kind@, npc_name@, message@, day_part(time_of_day)),
            },
    {
        match attempt {
            AiAttempt::Answered(r) => HybridResponse::ai(r),
            _ => HybridResponseManager::instant_response(npc_name, npc_kind, message, time_of_day),
        }
    }
}

} // verus!
