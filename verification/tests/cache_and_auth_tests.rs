use blaniel_npc::action_records::{
    action_config_key, action_name_of_key, action_result_key, action_stats_key, action_stats_pattern,
    check_action_texts, missing_action_config, newest_first, ActionTally,
};
use blaniel_npc::api_checks::{bearer_token, ApiError, Claims};
use blaniel_npc::cache_admin::{
    chat_pattern, info_counter, keyspace_counts, npc_state_keys, plan_invalidation, Invalidation,
};
use blaniel_npc::webhook_auth::webhook_authorized;

use blaniel_npc::cache_admin::{missing_position, missing_scene, scene_meta_key, scene_name_key, scene_pattern, scene_position_keys, scene_positions_key, target_scene};
use blaniel_npc::action_records::{action_plan_key, plan_total_ms};
use blaniel_npc::backend::{backend_auth_header, backend_chat_url, backend_position_url, backend_reply};
use blaniel_npc::chat::ChatResponse;
use blaniel_npc::llm_flow::LLMError;
use blaniel_npc::provider_registry::{exhausted_error, FailoverStrategy};
#[test]
fn npc_cache_keys() {
    assert_eq!(npc_state_keys("a1"), vec!["npc:state:a1", "npc:emotions:a1", "npc:position:a1"]);
    assert_eq!(chat_pattern("a1"), "chat:a1:*");
}

#[test]
fn invalidation_events() {
    assert_eq!(plan_invalidation("emotional_update", 1_000, 1_000), Ok(Invalidation::Emotional));
    assert_eq!(plan_invalidation("position_update", 1_000, 700), Ok(Invalidation::Position));
    assert_eq!(plan_invalidation("personality_change", 1_000, 1_300), Ok(Invalidation::Everything));
    assert_eq!(
        plan_invalidation("emotional_update", 1_000, 699),
        Err(ApiError::BadRequest("Stale invalidation request".to_string()))
    );
    assert_eq!(
        plan_invalidation("emotional_update", 1_000, 1_301),
        Err(ApiError::BadRequest("Stale invalidation request".to_string()))
    );
    assert_eq!(
        plan_invalidation("weather_change", 1_000, 1_000),
        Err(ApiError::BadRequest("Unknown event type: weather_change".to_string()))
    );
}

#[test]
fn statistics_counters() {
    let info = "# Stats\r\nkeyspace_hits:120\r\nkeyspace_misses:30\r\nother:1\r\n";
    assert_eq!(info_counter(info, "keyspace_hits:"), 120);
    assert_eq!(keyspace_counts(info), (120, 30));
    assert_eq!(info_counter("keyspace_hits:many\n", "keyspace_hits:"), 0);
    assert_eq!(info_counter("nothing here", "keyspace_hits:"), 0);
    assert_eq!(info_counter("keyspace_hits:7:9", "keyspace_hits:"), 7);
    assert_eq!(info_counter("keyspace_hits:5\r", "keyspace_hits:"), 0);
    assert_eq!(info_counter("a\nkeyspace_hits:1\nkeyspace_hits:2\n", "keyspace_hits:"), 1);
}

#[test]
fn bearer_tokens() {
    assert_eq!(bearer_token(Some("Bearer abc.def")), Some("abc.def".to_string()));
    assert_eq!(bearer_token(Some("Bearer ")), Some(String::new()));
    assert_eq!(bearer_token(Some("bearer abc")), None);
    assert_eq!(bearer_token(Some("Basic abc")), None);
    assert_eq!(bearer_token(None), None);
    let c = Claims { user_id: "user123".to_string(), exp: 10, iat: 5 };
    assert_eq!(c.user_id, "user123");
}

#[test]
fn webhook_signatures() {
    let body = b"what do ya want for nothing?";
    let good = "5bdcc146bf60754e6a042426089575c75a003f089d2739839dec58b964ec3843";
    let upper = "5BDCC146BF60754E6A042426089575C75A003F089D2739839DEC58B964EC3843";
    assert!(webhook_authorized(Some(good), body, "Jefe", None, "jwt"));
    assert!(webhook_authorized(Some(upper), body, "Jefe", None, "jwt"));
    assert!(!webhook_authorized(Some(good), body, "Jeff", None, "jwt"));
    assert!(!webhook_authorized(Some(&good[..62]), body, "Jefe", None, "jwt"));
    assert!(!webhook_authorized(Some("zz"), body, "Jefe", Some("Bearer x"), "jwt"));
    assert!(!webhook_authorized(None, body, "Jefe", None, "jwt"));
    assert!(!webhook_authorized(None, body, "Jefe", Some("Bearer not-a-token"), "jwt"));
}

#[test]
fn webhook_accepts_a_valid_bearer_token() {
    let claims = Claims { user_id: "u".to_string(), exp: 0, iat: 0 };
    let exp = (chrono::Utc::now().timestamp() + 3600).to_string();
    let header = jsonwebtoken::Header::default();
    let mut payload = serde_json::Map::new();
    payload.insert("user_id".to_string(), serde_json::Value::String(claims.user_id.clone()));
    payload.insert("exp".to_string(), serde_json::Value::Number(exp.parse::<u64>().unwrap().into()));
    let token = jsonwebtoken::encode(&header, &payload, &jsonwebtoken::EncodingKey::from_secret(b"jwt")).unwrap();
    let auth = format!("Bearer {}", token);
    assert!(webhook_authorized(None, b"{}", "secret", Some(&auth), "jwt"));
    assert!(!webhook_authorized(None, b"{}", "secret", Some(&auth), "other"));
}

#[test]
fn action_texts_must_not_be_blank() {
    assert_eq!(check_action_texts("Intro", "Act", "Move"), Ok(()));
    assert_eq!(
        check_action_texts("  ", "Act", "Move"),
        Err(ApiError::BadRequest("The 'introduction' field is required and cannot be empty".to_string()))
    );
    assert_eq!(
        check_action_texts("Intro", "\t", ""),
        Err(ApiError::BadRequest("The 'action_explain' field is required and cannot be empty".to_string()))
    );
    assert_eq!(
        check_action_texts("Intro", "Act", " \n"),
        Err(ApiError::BadRequest("The 'movement_explain' field is required and cannot be empty".to_string()))
    );
}

#[test]
fn action_keys() {
    assert_eq!(action_config_key("n1"), "npc:n1:action_config");
    assert_eq!(action_stats_key("n1", "trade"), "action_stats:n1:trade");
    assert_eq!(action_result_key("n1", "trade", true), "action_success:n1:trade");
    assert_eq!(action_result_key("n1", "trade", false), "action_failure:n1:trade");
    assert_eq!(action_stats_pattern("n1"), "action_stats:n1:*");
    assert_eq!(action_name_of_key("action_stats:n1:trade"), Some("trade".to_string()));
    assert_eq!(action_name_of_key("action_stats:n1"), None);
    assert_eq!(
        missing_action_config("n1"),
        ApiError::NotFound("Action system config not found for agent 'n1'".to_string())
    );
}

#[test]
fn action_tally_totals() {
    let mut t = ActionTally::new();
    assert_eq!(t.most_used_action(), None);
    t.add("trade", 5, 4, 1);
    t.add("fight", 9, 0, 9);
    t.add("talk", 2, 2, 0);
    assert_eq!(t.total_successes(), 6);
    assert_eq!(t.total_actions(), 16);
    assert_eq!(t.most_used_action(), Some("fight".to_string()));
    assert_eq!(t.distribution().len(), 3);
    assert_eq!(t.success_counts().len(), 2);
    assert_eq!(t.failure_counts().len(), 2);
    t.add("trade", 1, 0, 0);
    assert_eq!(t.distribution()[0], ("trade".to_string(), 1));
}

#[test]
fn history_shows_newest_first() {
    let ts = vec![10, 30, 20, 30, 5];
    assert_eq!(newest_first(&ts, 100), vec![1, 3, 2, 0, 4]);
    assert_eq!(newest_first(&ts, 2), vec![1, 3]);
    assert_eq!(newest_first(&vec![], 100), Vec::<usize>::new());
}

#[test]
fn scene_keys() {
    assert_eq!(scene_name_key("house", "Bed"), "scene:house:name:bed");
    assert_eq!(
        scene_position_keys("house", "Bed", &vec!["Cama".to_string(), "COT".to_string()]),
        vec!["scene:house:name:bed", "scene:house:name:cama", "scene:house:name:cot"]
    );
    assert_eq!(scene_positions_key("house"), "scene:house:positions");
    assert_eq!(scene_meta_key("house"), "scene:house:meta");
    assert_eq!(scene_pattern("house"), "scene:house:*");
    assert_eq!(missing_scene("x"), ApiError::NotFound("Scene 'x' not found".to_string()));
    assert_eq!(target_scene(None), "default");
    assert_eq!(target_scene(Some("tavern")), "tavern");
    assert_eq!(
        missing_position("bed", "default"),
        ApiError::NotFound("Position 'bed' not found in scene 'default'".to_string())
    );
}

#[test]
fn plan_durations_add_up_with_a_default() {
    assert_eq!(plan_total_ms(&vec![Some(250), None, Some(0)]), 1250);
    assert_eq!(plan_total_ms(&vec![]), 0);
    assert_eq!(action_plan_key("n1", "p9"), "npc:n1:action_plan:p9");
}

#[test]
fn backend_endpoints() {
    assert_eq!(backend_auth_header("k"), "Bearer k");
    assert_eq!(backend_chat_url("http://web", "a1"), "http://web/api/v1/agents/a1/chat");
    assert_eq!(backend_position_url("http://web", "a1"), "http://web/api/v1/npc/a1/position");
    let r = ChatResponse {
        response: "Hi".to_string(),
        emotion: "joy".to_string(),
        animation: "wave".to_string(),
        source: "whatever".to_string(),
        latency_ms: 1,
        cached: None,
    };
    let b = backend_reply(r, 77);
    assert_eq!(b.source, "nextjs_ai");
    assert_eq!(b.latency_ms, 77);
    assert_eq!(b.emotion, "joy");
}

#[test]
fn errors_after_every_provider_failed() {
    let errs = || vec![LLMError::Timeout(5), LLMError::EmptyResponse];
    assert_eq!(exhausted_error(FailoverStrategy::RoundRobin, errs()), LLMError::Timeout(5));
    assert_eq!(exhausted_error(FailoverStrategy::Priority, errs()), LLMError::EmptyResponse);
    assert_eq!(exhausted_error(FailoverStrategy::Random, errs()), LLMError::EmptyResponse);
    assert_eq!(
        exhausted_error(FailoverStrategy::Priority, vec![]),
        LLMError::Unhealthy("No providers available".to_string())
    );
    assert_eq!(
        exhausted_error(FailoverStrategy::LeastLatency, vec![]),
        LLMError::Unhealthy("No healthy providers".to_string())
    );
    assert_eq!(
        exhausted_error(FailoverStrategy::RoundRobin, vec![]),
        LLMError::Unhealthy("No enabled providers".to_string())
    );
}

#[test]
fn monitoring_gauges() {
    let text = blaniel_npc::service_info::metrics_text("0.1.0", true, false, 3, 12);
    let expected = "# HELP npc_api_info NPC API version info\n# TYPE npc_api_info gauge\nnpc_api_info{version=\"0.1.0\"} 1\n# HELP npc_api_db_connected Database connection status\n# TYPE npc_api_db_connected gauge\nnpc_api_db_connected{} 1\n# HELP npc_api_redis_connected Redis connection status\n# TYPE npc_api_redis_connected gauge\nnpc_api_redis_connected{} 0\n# HELP npc_api_memory_cache_size Memory cache entries\n# TYPE npc_api_memory_cache_size gauge\nnpc_api_memory_cache_size{type=\"npc\"} 3\nnpc_api_memory_cache_size{type=\"chat\"} 12\n";
    assert_eq!(text, expected);
    assert_eq!(blaniel_npc::service_info::health_status(), "healthy");
}
