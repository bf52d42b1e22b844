//! Time-to-live policies for cached data, chosen by the key's prefix.

use vstd::prelude::*;
use crate::text::{chars_of, starts_with, seq_starts_with};

verus! {

/// Lifetimes, in seconds, of the entries that the HTTP layer caches.
pub struct CacheTtl;

impl CacheTtl {
    /// Action plans: 5 minutes.
    pub const ACTION_PLAN_TTL: u64 = 300;
    /// Scene data: 24 hours.
    pub const SCENE_DATA_TTL: u64 = 86400;
    /// Navigation configuration: 1 hour.
    pub const NAV_CONFIG_TTL: u64 = 3600;
    /// Action system configuration: 1 hour.
    pub const ACTION_CONFIG_TTL: u64 = 3600;
    /// AI context: 1 hour.
    pub const AI_CONTEXT_TTL: u64 = 3600;
    /// Action history: 7 days.
    pub const ACTION_HISTORY_TTL: u64 = 604800;
}

/// Cache TTL strategies for different data types.
pub struct CacheStrategy;

/// The lifetime that the cache gives a key, by its first matching prefix.
pub open spec fn ttl_for_key_spec(key: Seq<char>) -> u64 {
    if seq_starts_with(key, "npc:state:"@) {
        60
    } else if seq_starts_with(key, "npc:position:"@) {
        30
    } else if seq_starts_with(key, "npc:emotions:"@) {
        300
    } else if seq_starts_with(key, "path:"@) {
        30
    } else if seq_starts_with(key, "chat:"@) {
        300
    } else if seq_starts_with(key, "dialogue:ambient:"@) {
        300
    } else if seq_starts_with(key, "proximity:"@) {
        10
    } else if seq_starts_with(key, "npc:meta:"@) {
        600
    } else {
        60
    }
}

impl CacheStrategy {
    /// NPC state: 1 minute, it changes often.
    pub const NPC_STATE_TTL: u64 = 60;
    /// NPC position.
    pub const NPC_POSITION_TTL: u64 = 30;
    /// NPC emotions.
    pub const NPC_EMOTIONS_TTL: u64 = 300;
    /// Computed paths.
    pub const PATHFINDING_TTL: u64 = 30;
    /// Canned chat answers.
    pub const SIMPLE_CHAT_TTL: u64 = 300;
    /// Model-generated chat answers.
    pub const AI_CHAT_TTL: u64 = 30;
    /// Ambient dialogue.
    pub const AMBIENT_DIALOGUE_TTL: u64 = 300;
    /// Proximity lookups.
    pub const PROXIMITY_TTL: u64 = 10;
    /// NPC metadata.
    pub const METADATA_TTL: u64 = 600;

    /// The lifetime, in seconds, of a cache entry under `key`.
    pub fn ttl_for_key(key: &str) -> (ttl: u64)
        ensures
            ttl == ttl_for_key_spec(key@),
    {
        let k = chars_of(key);
        if starts_with(&k, &chars_of("npc:state:")) {
            Self::NPC_STATE_TTL
        } else if starts_with(&k, &chars_of("npc:position:")) {
            Self::NPC_POSITION_TTL
        } else if starts_with(&k, &chars_of("npc:emotions:")) {
            Self::NPC_EMOTIONS_TTL
        } else if starts_with(&k, &chars_of("path:")) {
            Self::PATHFINDING_TTL
        } else if starts_with(&k, &chars_of("chat:")) {
            Self::SIMPLE_CHAT_TTL
        } else if starts_with(&k, &chars_of("dialogue:ambient:")) {
            Self::AMBIENT_DIALOGUE_TTL
        } else if starts_with(&k, &chars_of("proximity:")) {
            Self::PROXIMITY_TTL
        } else if starts_with(&k, &chars_of("npc:meta:")) {
            Self::METADATA_TTL
        } else {
            60
        }
    }
}

} // verus!
