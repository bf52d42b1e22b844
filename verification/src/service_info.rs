//! What the service reports about itself: its health status and the
//! gauges it exposes to monitoring.

use vstd::prelude::*;
use crate::prompt::{decimal_u64, digits_of};
use crate::text::{join2, join3};

verus! {

/// The status a running service reports.
pub fn health_status() -> (s: &'static str)
    ensures
        s@ == "healthy"@,
{
    "healthy"
}

/// The digit a flag is shown as.
pub open spec fn flag_digit(b: bool) -> Seq<char> {
    if b { "1"@ } else { "0"@ }
}

/// The monitoring gauges, in the text exposition format: the version, the
/// database and cache connections (1 when connected) and the sizes of the
/// two in-memory caches.
pub open spec fn metrics_text_of(version: Seq<char>, db_connected: bool, redis_connected: bool, npc_cache: nat, chat_cache: nat) -> Seq<char> {
    "# HELP npc_api_info NPC API version info\n# TYPE npc_api_info gauge\nnpc_api_info{version=\""@
        + version
        + "\"} 1\n# HELP npc_api_db_connected Database connection status\n# TYPE npc_api_db_connected gauge\nnpc_api_db_connected{} "@
        + flag_digit(db_connected)
        + "\n# HELP npc_api_redis_connected Redis connection status\n# TYPE npc_api_redis_connected gauge\nnpc_api_redis_connected{} "@
        + flag_digit(redis_connected)
        + "\n# HELP npc_api_memory_cache_size Memory cache entries\n# TYPE npc_api_memory_cache_size gauge\nnpc_api_memory_cache_size{type=\"npc\"} "@
        + digits_of(npc_cache)
        + "\nnpc_api_memory_cache_size{type=\"chat\"} "@
        + digits_of(chat_cache)
        + "\n"@
}

/// The monitoring gauges (see `metrics_text_of`).
pub fn metrics_text(version: &str, db_connected: bool, redis_connected: bool, npc_cache: usize, chat_cache: usize) -> (t: String)
    ensures
        t@ == metrics_text_of(version@, db_connected, redis_connected, npc_cache as nat, chat_cache as nat),
{
    let db = if db_connected { "1" } else { "0" };
    let redis = if redis_connected { "1" } else { "0" };
    let npc = decimal_u64(npc_cache as u64);
    let chat = decimal_u64(chat_cache as u64);
    let a = join3(
        "# HELP npc_api_info NPC API version info\n# TYPE npc_api_info gauge\nnpc_api_info{version=\"",
        version,
        "\"} 1\n# HELP npc_api_db_connected Database connection status\n# TYPE npc_api_db_connected gauge\nnpc_api_db_connected{} ",
    );
    let b = join3(
        a.as_str(),
        db,
        "\n# HELP npc_api_redis_connected Redis connection status\n# TYPE npc_api_redis_connected gauge\nnpc_api_redis_connected{} ",
    );
    let c = join3(
        b.as_str(),
        redis,
        "\n# HELP npc_api_memory_cache_size Memory cache entries\n# TYPE npc_api_memory_cache_size gauge\nnpc_api_memory_cache_size{type=\"npc\"} ",
    );
    let d = join3(c.as_str(), npc.as_str(), "\nnpc_api_memory_cache_size{type=\"chat\"} ");
    let t = join3(d.as_str(), chat.as_str(), "\n");
    proof {
        assert(db@ == flag_digit(db_connected));
        assert(redis@ == flag_digit(redis_connected));
    }
    t
}

} // verus!
