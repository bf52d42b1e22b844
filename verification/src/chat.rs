//! Values exchanged with game clients: chat replies and ambient lines.

use vstd::prelude::*;

verus! {

/// A reply to a player's chat message.
#[derive(Debug, Clone, PartialEq, Eq)]
pub struct ChatResponse {
    /// The reply text.
    pub response: String,
    /// Emotion the NPC shows.
    pub emotion: String,
    /// Animation the NPC plays.
    pub animation: String,
    /// Where the reply came from.
    pub source: String,
    /// Time taken to produce it, in milliseconds.
    pub latency_ms: u64,
    /// Whether it was served from a cache.
    pub cached: Option<bool>,
}

/// One line of background conversation between NPCs.
#[derive(Debug, Clone, PartialEq, Eq)]
pub struct AmbientDialogue {
    /// Who says it.
    pub speaker_id: String,
    /// What is said.
    pub message: String,
    /// Emotion shown.
    pub emotion: String,
    /// Animation played.
    pub animation: String,
}

/// Builds a reply from its parts.
pub fn make_reply(response: String, emotion: &str, animation: &str, source: &str, latency_ms: u64, cached: Option<bool>) -> (r: ChatResponse)
    ensures
        r.response@ == response@,
        r.emotion@ == emotion@,
        r.animation@ == animation@,
        r.source@ == source@,
        r.latency_ms == latency_ms,
        r.cached == cached,
{
    ChatResponse {
        response,
        emotion: emotion.to_string(),
        animation: animation.to_string(),
        source: source.to_string(),
        latency_ms,
        cached,
    }
}

/// Builds an ambient line from its parts.
pub fn make_line(speaker_id: &str, message: &str, emotion: &str, animation: &str) -> (d: AmbientDialogue)
    ensures
        d.speaker_id@ == speaker_id@,
        d.message@ == message@,
        d.emotion@ == emotion@,
        d.animation@ == animation@,
{
    AmbientDialogue {
        speaker_id: speaker_id.to_string(),
        message: message.to_string(),
        emotion: emotion.to_string(),
        animation: animation.to_string(),
    }
}

/// Where an NPC stands, with each coordinate already cut to a whole number.
#[derive(Debug, Clone)]
pub struct ContextPosition {
    pub x: i32,
    pub y: i32,
    pub z: i32,
    pub world: String,
}

/// What the game tells about the scene of a conversation.
#[derive(Debug, Clone)]
pub struct ChatContext {
    /// The NPC's position, if known.
    pub position: Option<ContextPosition>,
    /// The NPC's current activity, as the game names it.
    pub activity: Option<String>,
    /// Players close by.
    pub nearby_players: Vec<String>,
    /// NPCs close by.
    pub nearby_npcs: Vec<String>,
    /// Game time of day, in ticks.
    pub time_of_day: Option<u64>,
    /// The weather, as the game names it.
    pub weather: Option<String>,
}

impl Default for ChatContext {
    /// An empty scene: nothing known.
    fn default() -> (c: Self)
        ensures
            c.position is None,
            c.activity is None,
            c.nearby_players@.len() == 0,
            c.nearby_npcs@.len() == 0,
            c.time_of_day is None,
            c.weather is None,
    {
        ChatContext {
            position: None,
            activity: None,
            nearby_players: Vec::new(),
            nearby_npcs: Vec::new(),
            time_of_day: None,
            weather: None,
        }
    }
}

} // verus!
