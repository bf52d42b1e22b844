//! The web backend that answers the chats no model provider could: where
//! its endpoints are, how requests to it are signed, and how its replies
//! are labelled.

use vstd::prelude::*;
use crate::chat::ChatResponse;
use crate::text::{join2, join3};

verus! {

/// The header value that authenticates the service to the backend.
pub fn backend_auth_header(api_key: &str) -> (h: String)
    ensures
        h@ == "Bearer "@ + api_key@,
{
    join2("Bearer ", api_key)
}

/// Where the backend answers an NPC's chat.
pub fn backend_chat_url(base_url: &str, agent_id: &str) -> (u: String)
    ensures
        u@ == base_url@ + "/api/v1/agents/"@ + agent_id@ + "/chat"@,
{
    let head = join3(base_url, "/api/v1/agents/", agent_id);
    join2(head.as_str(), "/chat")
}

/// Where the backend stores an NPC's position.
pub fn backend_position_url(base_url: &str, agent_id: &str) -> (u: String)
    ensures
        u@ == base_url@ + "/api/v1/npc/"@ + agent_id@ + "/position"@,
{
    let head = join3(base_url, "/api/v1/npc/", agent_id);
    join2(head.as_str(), "/position")
}

/// A reply of the backend as the service passes it on: marked as coming
/// from the backend, with the time the call took; the rest as it came.
pub fn backend_reply(reply: ChatResponse, latency_ms: u64) -> (r: ChatResponse)
    ensures
        r.response == reply.response,
        r.emotion == reply.emotion,
        r.animation == reply.animation,
        r.cached == reply.cached,
        r.source@ == "nextjs_ai"@,
        r.latency_ms == latency_ms,
{
    ChatResponse {
        response: reply.response,
        emotion: reply.emotion,
        animation: reply.animation,
        source: "nextjs_ai".to_string(),
        latency_ms,
        cached: reply.cached,
    }
}

} // verus!
