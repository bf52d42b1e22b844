//! Verified core of the NPC runtime: cache policies, navigation, path search,
//! movement command handling, canned dialogue and request bookkeeping.

pub mod text;
pub mod cache_strategy;
pub mod navigation;
pub mod open_set;
pub mod pathfinding;
pub mod chat;
pub mod dialogue;
pub mod templates;
pub mod hybrid;
pub mod provider_health;
pub mod command_parser;
pub mod request_log;
pub mod request_queue;
pub mod ordering;
pub mod provider_registry;
pub mod api_checks;
pub mod router;
pub mod prompt;
pub mod usage_metrics;
pub mod memory_cache;
pub mod warmer;
pub mod records;
pub mod movement_text;
pub mod laws;
pub mod llm_flow;
pub mod cli_input;
pub mod env_setup;
pub mod cache_admin;
pub mod adapters;
pub mod webhook_auth;
pub mod action_records;
pub mod backend;
pub mod provider_admin;
pub mod service_info;
