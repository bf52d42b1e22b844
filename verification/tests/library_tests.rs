use blaniel_npc::api_checks::{
    check_max_tokens, check_timeout, custom_provider_name, sanitize_header_key, validate_base_url, verify_admin, ApiError,
};
use blaniel_npc::cache_strategy::CacheStrategy;
use blaniel_npc::chat::{ChatContext, ContextPosition};
use blaniel_npc::memory_cache::MemoryCache;
use blaniel_npc::movement_text::parse_natural_language;
use blaniel_npc::prompt::{decimal_i32, decimal_u64, SystemPromptBuilder};
use blaniel_npc::provider_health::{ProviderMetrics, TokenBucket};
use blaniel_npc::provider_registry::{
    by_latency, round_robin_fallbacks, strategy_from_setting, FailoverStrategy, LLMProviderRegistry,
};
use blaniel_npc::records::MessageRecord;
use blaniel_npc::request_log::{RequestMetricsCollector, RequestRecord};
use blaniel_npc::request_queue::{NPCPriorityQueue, NPCRequest, Priority};
use blaniel_npc::router::{RequestRouter, Route};
use blaniel_npc::usage_metrics::{MetricsTracker, RequestMetrics};
use blaniel_npc::warmer::PredictiveCacheWarmer;
use blaniel_npc::chat::ChatResponse;

#[test]
fn bucket_grants_exactly_its_size_at_one_instant() {
    let mut bucket = TokenBucket::new_at(3, 1_000);
    assert!(bucket.try_acquire_at(1_000));
    assert!(bucket.try_acquire_at(1_000));
    assert!(bucket.try_acquire_at(1_000));
    assert!(!bucket.try_acquire_at(1_000));
    // One interval (60 000 / 3 ms) later one token is back.
    assert!(bucket.try_acquire_at(21_000));
    assert!(!bucket.try_acquire_at(21_000));
}

#[test]
fn breaker_trips_after_five_errors_and_success_closes_it() {
    let mut metrics = ProviderMetrics::new();
    for _ in 0..4 {
        metrics.record_error();
    }
    assert!(metrics.is_healthy());
    assert!(!metrics.circuit_open());
    metrics.record_error();
    assert!(metrics.circuit_open());
    assert!(!metrics.is_healthy());
    metrics.record_success(1_000);
    assert!(!metrics.circuit_open());
    assert_eq!(metrics.consecutive_errors(), 0);
    assert_eq!(metrics.total_errors(), 5);
    assert_eq!(metrics.total_requests(), 6);
}

#[test]
fn moving_average_takes_three_percent() {
    let mut metrics = ProviderMetrics::new();
    metrics.record_success(100_000);
    assert_eq!(metrics.avg_latency_fixed(), 3_000);
}

fn record(agent: &str, latency: u64) -> RequestRecord {
    RequestRecord {
        agent_id: agent.to_string(),
        user_id: "u".to_string(),
        provider: "p".to_string(),
        latency_ms: latency,
        cached: false,
        success: true,
        timestamp: 7,
    }
}

#[test]
fn agent_window_keeps_latest_thousand() {
    let mut collector = RequestMetricsCollector::with_capacity(10);
    for i in 0..1001u64 {
        collector.record(record("npc", i));
    }
    let window = collector.get_by_agent("npc");
    assert_eq!(window.len(), 1000);
    assert_eq!(window[0].latency_ms, 1);
    assert_eq!(window[999].latency_ms, 1000);
    assert_eq!(collector.record_count(), 10);
    assert_eq!(collector.get_by_user("u").len(), 500);
    let recent = collector.recent_records(3);
    assert_eq!(recent.len(), 3);
}

#[test]
fn agent_summary_percentiles() {
    let mut collector = RequestMetricsCollector::new();
    for latency in [50u64, 10, 40, 30, 20] {
        collector.record(record("npc", latency));
    }
    let s = collector.agent_summary("npc").unwrap();
    assert_eq!(s.p50_latency_ms, 30);
    assert_eq!(s.p99_latency_ms, 50);
    assert_eq!(s.window_latency_ms, 150);
    assert!(collector.agent_summary("other").is_none());
    let u = collector.user_summary("u").unwrap();
    assert_eq!(u.total_requests, 5);
    assert_eq!(u.total_latency_ms, 150);
}

#[test]
fn top_agents_limit_and_order() {
    let mut collector = RequestMetricsCollector::new();
    for (agent, n) in [("a", 1), ("b", 3), ("c", 2)] {
        for _ in 0..n {
            collector.record(record(agent, 5));
        }
    }
    let top = collector.top_agents(2);
    assert_eq!(top.len(), 2);
    assert_eq!(top[0].agent_id, "b");
    assert_eq!(top[1].agent_id, "c");
}

fn request(agent: &str, priority: Priority) -> NPCRequest {
    NPCRequest::new(agent.into(), "u".into(), "m".into(), ChatContext::default(), priority)
}

#[test]
fn full_queue_still_admits_urgent_requests() {
    let mut queue = NPCPriorityQueue::new(4, 1);
    assert!(queue.submit(request("a", Priority::Low)).is_ok());
    assert!(queue.submit(request("b", Priority::Background)).is_err());
    assert!(queue.submit(request("c", Priority::High)).is_ok());
    assert_eq!(queue.len(), 2);
    let err = queue.submit(request("d", Priority::Low)).unwrap_err();
    assert_eq!(err, "Queue full, request rejected");
    let stats = queue.stats();
    assert_eq!(stats.total, 2);
    assert_eq!(stats.by_priority.get(Priority::High), 1);
    assert_eq!(stats.by_priority.get(Priority::Low), 1);
    assert_eq!(stats.discarded_by_priority.get(Priority::Background), 1);
    assert_eq!(stats.semaphore_capacity, 4);
}

#[test]
fn same_agent_requests_get_distinct_keys() {
    let mut queue = NPCPriorityQueue::new(4, 10);
    queue.submit(request("a", Priority::Medium)).unwrap();
    queue.submit(request("a", Priority::Medium)).unwrap();
    assert_eq!(queue.len(), 2);
    assert!(queue.pop().is_some());
    assert!(queue.pop().is_some());
    assert!(queue.pop().is_none());
}

#[test]
fn keyed_submit_replaces_same_key() {
    let mut queue = NPCPriorityQueue::new(4, 10);
    queue.submit_keyed(request("a", Priority::Low), "x").unwrap();
    queue.submit_keyed(request("a", Priority::Critical), "x").unwrap();
    assert_eq!(queue.len(), 1);
    assert_eq!(queue.pop().unwrap().priority, Priority::Critical);
}

#[test]
fn clearing_keeps_recent_background_and_all_others() {
    let mut queue = NPCPriorityQueue::new(4, 10);
    queue.submit(request("a", Priority::Background)).unwrap();
    queue.submit(request("b", Priority::Medium)).unwrap();
    queue.clear_old_background(60_000);
    assert_eq!(queue.len(), 2);
    let started = std::time::Instant::now();
    while started.elapsed() < std::time::Duration::from_millis(3) {}
    queue.clear_old_background(1);
    assert_eq!(queue.len(), 1);
    assert_eq!(queue.pop().unwrap().agent_id, "b");
}

#[test]
fn registry_replaces_by_name_and_orders_enabled() {
    let mut registry: LLMProviderRegistry<u8> = LLMProviderRegistry::new(FailoverStrategy::RoundRobin);
    registry.register("a".to_string(), 5, true, 1).unwrap();
    registry.register("b".to_string(), 1, false, 2).unwrap();
    registry.register("c".to_string(), 3, true, 3).unwrap();
    registry.register("a".to_string(), 0, true, 4).unwrap();
    assert_eq!(registry.provider_count(), 3);
    assert_eq!(registry.get("a"), Some(&4));
    let enabled = registry.enabled_ordered();
    let names: Vec<String> = enabled.iter().map(|&i| registry.providers()[i].name.clone()).collect();
    assert_eq!(names, vec!["a".to_string(), "c".to_string()]);
    assert_eq!(registry.enabled_count(&vec![true, true, false]), 1);
    assert_eq!(registry.next_turn(2), 0);
    assert_eq!(registry.next_turn(2), 1);
    assert_eq!(registry.next_turn(2), 0);
    assert!(!registry.unregister("zzz"));
    assert!(registry.unregister("a"));
    assert!(registry.get("a").is_none());
}

#[test]
fn registry_logs_outcomes() {
    let mut registry: LLMProviderRegistry<()> = LLMProviderRegistry::new(FailoverStrategy::Priority);
    let reply = ChatResponse {
        response: "hi".into(),
        emotion: "joy".into(),
        animation: "wave".into(),
        source: "llm:a".into(),
        latency_ms: 12,
        cached: None,
    };
    registry.record_success("npc", "user", &reply);
    registry.record_failure("npc", "user", "b");
    let window = registry.metrics().get_by_agent("npc");
    assert_eq!(window.len(), 2);
    assert_eq!(window[0].provider, "llm:a");
    assert!(window[0].success);
    assert!(!window[1].success);
    assert_eq!(registry.metrics().global_summary().total_errors, 1);
}

#[test]
fn failover_helpers() {
    assert_eq!(strategy_from_setting(Some("round_robin")), FailoverStrategy::RoundRobin);
    assert_eq!(strategy_from_setting(Some("least_latency")), FailoverStrategy::LeastLatency);
    assert_eq!(strategy_from_setting(Some("random")), FailoverStrategy::Random);
    assert_eq!(strategy_from_setting(Some("other")), FailoverStrategy::Priority);
    assert_eq!(strategy_from_setting(None), FailoverStrategy::Priority);

    assert_eq!(by_latency(&vec![(7, 300), (8, 100), (9, 200)]), vec![8, 9, 7]);

    let mut registry: LLMProviderRegistry<()> = LLMProviderRegistry::new(FailoverStrategy::RoundRobin);
    registry.register("a".to_string(), 0, true, ()).unwrap();
    registry.register("b".to_string(), 1, true, ()).unwrap();
    registry.register("c".to_string(), 2, false, ()).unwrap();
    let mut s = registry.random_order();
    s.sort();
    assert_eq!(s, vec![0, 1]);
    let order = registry.enabled_ordered();
    assert_eq!(round_robin_fallbacks(registry.providers(), &order, 0), vec![1]);
}

#[test]
fn lru_cache_evicts_least_recently_used() {
    let mut cache = MemoryCache::new(2);
    cache.put("a".to_string(), "1".to_string());
    cache.put("b".to_string(), "2".to_string());
    assert_eq!(cache.get(&"a".to_string()), Some("1".to_string()));
    cache.put("c".to_string(), "3".to_string());
    assert_eq!(cache.peek(&"b".to_string()), None);
    assert_eq!(cache.peek(&"a".to_string()), Some("1".to_string()));
    cache.put("a".to_string(), "9".to_string());
    assert_eq!(cache.peek(&"a".to_string()), Some("9".to_string()));
    assert_eq!(cache.len(), 2);
    assert_eq!(cache.remove(&"zz".to_string()), None);
}

#[test]
fn chat_keys_are_lower_case_and_live_five_minutes() {
    let key = RequestRouter::chat_cache_key("npc7", "HeLLo There");
    assert_eq!(key, "chat:npc7:hello there");
    assert_eq!(CacheStrategy::ttl_for_key(&key), 300);
}

#[test]
fn routing_of_messages() {
    let router = RequestRouter::new();
    assert!(matches!(router.route("Hello"), Route::SmallTalk(_)));
    match router.route("thanks for the bread") {
        Route::Template(t) => {
            assert_eq!(t.response, "You're welcome! I'm here to help.");
            assert_eq!(t.source, "template");
            assert_eq!(t.latency_ms, 3);
        }
        _ => panic!("expected a template"),
    }
    assert!(matches!(router.route("Why do you think the sky is blue?"), Route::Model));
    assert_eq!(RequestRouter::reply_ttl(&Route::Model), 30);
    let t = RequestRouter::generate_template_response("where is it");
    assert_eq!(t.emotion, "neutral");
    assert_eq!(t.animation, "shake");
}

#[test]
fn usage_counts_and_top_users() {
    let mut tracker = MetricsTracker::new(2);
    tracker.record(RequestMetrics::new("a".into(), "u1".into(), "p".into(), 100, false));
    tracker.record(RequestMetrics::new("a".into(), "u2".into(), "q".into(), 0, true).with_error("x".into()));
    tracker.record(RequestMetrics::new("b".into(), "u2".into(), "p".into(), 10, false));
    let a = tracker.get_agent_metrics("a").unwrap();
    assert_eq!(a.total_requests, 2);
    assert_eq!(a.total_errors, 1);
    assert_eq!(a.providers_used.len(), 2);
    assert_eq!(a.avg_latency_milli, 21_000);
    assert_eq!(tracker.get_recent_requests(10).len(), 2);
    let top = tracker.get_top_users(1);
    assert_eq!(top, vec![("u2".to_string(), 2)]);
    let g = tracker.get_global_stats();
    assert_eq!(g.total_requests, 3);
    assert_eq!(g.total_agents, 2);
    assert_eq!(g.total_users, 2);
    assert_eq!(g.recent_requests_count, 2);
}

#[test]
fn admin_checks() {
    assert!(verify_admin("", "anyone").is_ok());
    assert!(verify_admin(" , ", "anyone").is_ok());
    assert!(verify_admin("alice, bob", "bob").is_ok());
    assert_eq!(verify_admin("alice, bob", "carol"), Err(ApiError::Unauthorized));
}

#[test]
fn base_url_checks() {
    assert!(validate_base_url("https://api.openai.com/v1", false).is_ok());
    assert_eq!(
        validate_base_url("not a url", false),
        Err(ApiError::BadRequest("Invalid base_url format".to_string()))
    );
    assert_eq!(
        validate_base_url("ftp://example.com", false),
        Err(ApiError::BadRequest("base_url must use http or https".to_string()))
    );
    assert_eq!(
        validate_base_url("http://localhost:11434/v1", false),
        Err(ApiError::BadRequest("Internal/local URLs not allowed for remote providers".to_string()))
    );
    assert!(validate_base_url("http://localhost:11434/v1", true).is_ok());
    assert!(validate_base_url("http://192.168.1.4/v1", false).is_err());
}

#[test]
fn header_and_limit_checks() {
    assert!(sanitize_header_key("X-Api-Key").is_ok());
    assert_eq!(
        sanitize_header_key(""),
        Err(ApiError::BadRequest("Header key must be 1-100 characters".to_string()))
    );
    assert_eq!(
        sanitize_header_key("bad key"),
        Err(ApiError::BadRequest("Header key contains invalid characters".to_string()))
    );
    assert!(sanitize_header_key(&"a".repeat(100)).is_ok());
    assert!(sanitize_header_key(&"a".repeat(101)).is_err());
    assert!(sanitize_header_key(&"é".repeat(51)).is_err());
    assert!(check_max_tokens(1).is_ok());
    assert!(check_max_tokens(0).is_err());
    assert!(check_max_tokens(32769).is_err());
    assert!(check_timeout(1000).is_ok());
    assert!(check_timeout(120001).is_err());
    assert_eq!(custom_provider_name(Some("mixtral")).unwrap(), "custom_mixtral");
    assert!(custom_provider_name(Some("")).is_err());
    assert!(custom_provider_name(None).is_err());
}

#[test]
fn api_error_texts() {
    let e = ApiError::NotFound("npc".to_string());
    assert_eq!(e.message(), "Not found: npc");
    assert_eq!(e.status(), 404);
    assert_eq!(e.code(), "NOT_FOUND");
    assert_eq!(e.body_message(), "npc");
    assert_eq!(ApiError::RateLimitExceeded.status(), 429);
    assert_eq!(ApiError::RateLimitExceeded.body_message(), "Too many requests");
    assert_eq!(ApiError::DatabaseError("down".to_string()).body_message(), "Database error: down");
    assert_eq!(ApiError::Unauthorized.message(), "Authentication required");
}

#[test]
fn system_message_describes_the_scene() {
    let mut builder = SystemPromptBuilder::new(Some("Base.".to_string()));
    let context = ChatContext {
        position: Some(ContextPosition { x: -3, y: 64, z: 10, world: "overworld".to_string() }),
        activity: Some("Idle".to_string()),
        nearby_players: vec!["Steve".to_string()],
        nearby_npcs: vec![],
        time_of_day: Some(7000),
        weather: None,
    };
    let msg = builder.build_system_message(None, None, &context);
    assert_eq!(
        msg,
        "Base.\n\n[CONTEXT]\nPosition: (-3, 64, 10) in overworld\nCurrent activity: Idle\nNearby players: [\"Steve\"]\nTime of day: 7000 (afternoon)"
    );
    let other = builder.build_system_message(Some("Other."), Some(""), &ChatContext::default());
    assert_eq!(other, "Other.");
    assert_eq!(builder.cache_len(), 2);
}

#[test]
fn decimal_texts() {
    assert_eq!(decimal_u64(0), "0");
    assert_eq!(decimal_u64(1234), "1234");
    assert_eq!(decimal_u64(u64::MAX), u64::MAX.to_string());
    assert_eq!(decimal_i32(-45), "-45");
    assert_eq!(decimal_i32(i32::MIN), i32::MIN.to_string());
}

#[test]
fn spoken_destinations() {
    assert_eq!(parse_natural_language("I'll head to the market."), Some("market".to_string()));
    assert_eq!(parse_natural_language("Let's GO TO THE big red barn!"), Some("big red barn".to_string()));
    assert_eq!(parse_natural_language("Voy a caminar hasta el río, amigo"), Some("el río, amigo".to_string()));
    assert_eq!(parse_natural_language("go to the "), None);
    assert_eq!(parse_natural_language("Nothing to see here"), None);
}

#[test]
fn warmer_lookups() {
    let mut warmer = PredictiveCacheWarmer::new();
    assert_eq!(warmer.get_warmup_messages("blacksmith").len(), 4);
    assert_eq!(warmer.get_warmup_messages("guard")[1], "Is everything okay?");
    assert!(PredictiveCacheWarmer::time_based_context("dusk").is_some());
    assert!(PredictiveCacheWarmer::time_based_context("xyz").is_none());
    assert_eq!(PredictiveCacheWarmer::template_key("npc1", "HeLLo", "night"), "npc1:hello:night");
    assert_eq!(PredictiveCacheWarmer::likely_message("merchant"), "What are you selling?");
    assert_eq!(PredictiveCacheWarmer::likely_message("guard"), "Hello");
    let reply = ChatResponse {
        response: "r".into(),
        emotion: "e".into(),
        animation: "a".into(),
        source: "s".into(),
        latency_ms: 1,
        cached: Some(true),
    };
    warmer.cache_template("k".to_string(), reply.clone());
    assert_eq!(warmer.get_template("k"), Some(reply));
    assert_eq!(warmer.get_template("missing"), None);
}

#[test]
fn message_roles() {
    let mut m = MessageRecord {
        id: "1".into(),
        agent_id: None,
        user_id: Some("u".into()),
        role: "user".into(),
        content: "hi".into(),
        created_at_millis: 0,
    };
    assert!(m.is_from_user());
    assert!(!m.is_from_agent());
    m.role = "agent".into();
    assert!(m.is_from_agent());
    m.role = "assistant".into();
    assert!(m.is_from_agent());
}
