//! Stored conversation messages.

use vstd::prelude::*;
use crate::text::same_text;

verus! {

/// A message of a conversation as stored, with its time in milliseconds
/// since the Unix epoch.
#[derive(Debug, Clone)]
pub struct MessageRecord {
    pub id: String,
    pub agent_id: Option<String>,
    pub user_id: Option<String>,
    /// Who wrote it: `user`, `assistant` or `agent`.
    pub role: String,
    pub content: String,
    pub created_at_millis: i64,
}

impl MessageRecord {
    /// Whether a player wrote the message.
    pub fn is_from_user(&self) -> (r: bool)
        ensures
            r == (self.role@ == "user"@),
    {
        same_text(self.role.as_str(), "user")
    }

    /// Whether the NPC wrote the message.
    pub fn is_from_agent(&self) -> (r: bool)
        ensures
            r == (self.role@ == "assistant"@ || self.role@ == "agent"@),
    {
        same_text(self.role.as_str(), "assistant") || same_text(self.role.as_str(), "agent")
    }
}

} // verus!
