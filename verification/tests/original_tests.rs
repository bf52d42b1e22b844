use blaniel_npc::cache_strategy::CacheStrategy;
use blaniel_npc::command_parser::MovementCommandParser;
use blaniel_npc::hybrid::UrgencyDetector;
use blaniel_npc::provider_health::TokenBucket;

#[test]
fn test_ttl_for_key() {
    assert_eq!(
        CacheStrategy::ttl_for_key("npc:state:agent123"),
        CacheStrategy::NPC_STATE_TTL
    );
    assert_eq!(
        CacheStrategy::ttl_for_key("npc:position:agent123"),
        CacheStrategy::NPC_POSITION_TTL
    );
    assert_eq!(
        CacheStrategy::ttl_for_key("chat:agent123:hello"),
        CacheStrategy::SIMPLE_CHAT_TTL
    );
    assert_eq!(
        CacheStrategy::ttl_for_key("path:0:0:0:10:10:10"),
        CacheStrategy::PATHFINDING_TTL
    );
    assert_eq!(CacheStrategy::ttl_for_key("unknown:key"), 60);
}

#[test]
fn test_max_latency() {
    assert_eq!(UrgencyDetector::max_acceptable_latency_ms(5, 0), 50);
    assert_eq!(UrgencyDetector::max_acceptable_latency_ms(5, 5), 20);
    assert_eq!(UrgencyDetector::max_acceptable_latency_ms(15, 2), 10);
}

#[test]
fn test_token_bucket_allows_within_limit() {
    let mut bucket = TokenBucket::new(5);
    for _ in 0..5 {
        assert!(bucket.try_acquire());
    }
}

#[test]
fn test_token_bucket_blocks_over_limit() {
    let mut bucket = TokenBucket::new(3);
    assert!(bucket.try_acquire());
    assert!(bucket.try_acquire());
    assert!(bucket.try_acquire());
    assert!(!bucket.try_acquire());
}

#[test]
fn test_token_bucket_zero_means_unlimited() {
    let mut bucket = TokenBucket::new(0);
    for _ in 0..100 {
        assert!(bucket.try_acquire());
    }
}

#[test]
fn test_strip_commands() {
    let response = "Voy a descansar [navigate:bed] en un momento";
    let clean = MovementCommandParser::strip_commands(response);
    assert_eq!(clean, "Voy a descansar en un momento");
}

#[test]
fn test_strip_commands_multiple() {
    let response = "Voy [navigate:bed] y luego [navigate:kitchen]";
    let clean = MovementCommandParser::strip_commands(response);
    assert_eq!(clean, "Voy y luego");
}

use blaniel_npc::chat::ChatContext;
use blaniel_npc::command_parser::BracketCommand;
use blaniel_npc::dialogue::AmbientDialogueManager;
use blaniel_npc::memory_cache::MemoryCache;
use blaniel_npc::movement_text::parse_natural_language;
use blaniel_npc::navigation::{NavigationMesh, PathfindOptions};
use blaniel_npc::pathfinding::{path_cost, PathOutcome, PathfindingEngine};
use blaniel_npc::prompt::SystemPromptBuilder;
use blaniel_npc::provider_health::ProviderMetrics;
use blaniel_npc::provider_registry::{FailoverStrategy, LLMProviderRegistry};
use blaniel_npc::request_log::{RequestMetricsCollector, RequestRecord};
use blaniel_npc::request_queue::{DistanceBand, NPCPriorityQueue, NPCRequest, Priority};
use blaniel_npc::router::RequestRouter;
use blaniel_npc::templates::ResponseTemplates;
use blaniel_npc::usage_metrics::{MetricsTracker, RequestMetrics};
use blaniel_npc::warmer::PredictiveCacheWarmer;

#[test]
fn test_memory_cache_basic_operations() {
    let mut cache = MemoryCache::new(2);

    cache.put("key1".to_string(), "value1".to_string());
    cache.put("key2".to_string(), "value2".to_string());

    assert_eq!(cache.get(&"key1".to_string()), Some("value1".to_string()));
    assert_eq!(cache.get(&"key2".to_string()), Some("value2".to_string()));
    assert_eq!(cache.len(), 2);
}

#[test]
fn test_memory_cache_eviction() {
    let mut cache = MemoryCache::new(2);

    cache.put("key1".to_string(), "value1".to_string());
    cache.put("key2".to_string(), "value2".to_string());
    cache.put("key3".to_string(), "value3".to_string());

    assert_eq!(cache.get(&"key1".to_string()), None);
    assert_eq!(cache.get(&"key3".to_string()), Some("value3".to_string()));
    assert_eq!(cache.len(), 2);
}

#[test]
fn test_memory_cache_remove() {
    let mut cache = MemoryCache::new(5);

    cache.put("key1".to_string(), "value1".to_string());
    assert_eq!(cache.remove(&"key1".to_string()), Some("value1".to_string()));
    assert_eq!(cache.get(&"key1".to_string()), None);
}

#[test]
fn test_memory_cache_clear() {
    let mut cache = MemoryCache::new(5);

    cache.put("key1".to_string(), "value1".to_string());
    cache.put("key2".to_string(), "value2".to_string());

    cache.clear();
    assert!(cache.is_empty());
}

#[test]
fn test_simple_greeting() {
    let manager = AmbientDialogueManager::new();

    let response = manager.try_simple_response("Hello");
    assert!(response.is_some());

    let response = response.unwrap();
    assert_eq!(response.source, "rust_cache");
    assert_eq!(response.emotion, "joy");
}

#[test]
fn test_farewell() {
    let manager = AmbientDialogueManager::new();

    let response = manager.try_simple_response("Goodbye");
    assert!(response.is_some());

    let response = response.unwrap();
    assert_eq!(response.animation, "wave");
}

#[test]
fn test_wellbeing_question() {
    let manager = AmbientDialogueManager::new();

    let response = manager.try_simple_response("How are you?");
    assert!(response.is_some());
}

#[test]
fn test_complex_message() {
    let manager = AmbientDialogueManager::new();

    let response = manager.try_simple_response("Tell me about the history of this kingdom");
    assert!(response.is_none());
}

#[test]
fn test_ambient_dialogues() {
    let manager = AmbientDialogueManager::new();

    let dialogues = manager.generate_ambient_dialogues(&["npc1".to_string(), "npc2".to_string()], "tavern");

    assert!(!dialogues.is_empty());
}

#[test]
fn test_urgency_detection() {
    // The library takes whether the player moves faster than 5 blocks/s.
    assert!(UrgencyDetector::is_urgent(10, 5, 3.0 > 5.0));
    assert!(UrgencyDetector::is_urgent(2, 15, 3.0 > 5.0));
    assert!(UrgencyDetector::is_urgent(2, 5, 10.0 > 5.0));
    assert!(!UrgencyDetector::is_urgent(2, 5, 2.0 > 5.0));
}

#[test]
fn test_health_tracking() {
    let mut metrics = ProviderMetrics::new();
    assert!(metrics.is_healthy());

    for _ in 0..5 {
        metrics.record_error();
    }
    assert!(!metrics.is_healthy());
}

#[test]
fn test_metrics_success() {
    let mut metrics = ProviderMetrics::new();
    // Latencies in thousandths of a millisecond: 50 ms and 100 ms.
    metrics.record_success(50_000);
    metrics.record_success(100_000);
    assert_eq!(metrics.total_requests(), 2);
    assert_eq!(metrics.consecutive_errors(), 0);
}

#[test]
fn test_build_system_message() {
    let mut builder = SystemPromptBuilder::new(None);

    let msg = builder.build_system_message(None, None, &ChatContext::default());
    assert!(msg.contains("NPC"));
}

#[test]
fn test_build_system_message_with_context() {
    let mut builder = SystemPromptBuilder::new(None);

    let msg = builder.build_system_message(
        Some("You are a wizard."),
        Some("[ACTIONS]\nYou can cast fireballs."),
        &ChatContext::default(),
    );
    assert!(msg.contains("wizard"));
    assert!(msg.contains("fireballs"));
}

#[test]
fn test_system_prompt_cache() {
    let mut builder = SystemPromptBuilder::new(None);

    let msg1 = builder.build_system_message(Some("Test prompt"), Some("ctx"), &ChatContext::default());
    let msg2 = builder.build_system_message(Some("Test prompt"), Some("ctx"), &ChatContext::default());
    assert_eq!(msg1, msg2);

    assert_eq!(builder.cache_len(), 1);
}

fn make_record(agent: &str, user: &str, provider: &str, latency: u64, success: bool, cached: bool) -> RequestRecord {
    RequestRecord {
        agent_id: agent.to_string(),
        user_id: user.to_string(),
        provider: provider.to_string(),
        latency_ms: latency,
        cached,
        success,
        timestamp: 1000,
    }
}

#[test]
fn test_record_and_query() {
    let mut collector = RequestMetricsCollector::with_capacity(100);

    collector.record(make_record("npc1", "user1", "openai", 100, true, false));
    collector.record(make_record("npc1", "user2", "openai", 200, true, true));
    collector.record(make_record("npc2", "user1", "groq", 50, true, false));
    collector.record(make_record("npc1", "user1", "openai", 500, false, false));

    let totals = collector.global_summary();
    assert_eq!(totals.total_requests, 4);
    assert_eq!(totals.total_errors, 1);
    assert_eq!(totals.total_cached, 1);

    let agent_records = collector.get_by_agent("npc1");
    assert_eq!(agent_records.len(), 3);

    let user_records = collector.get_by_user("user1");
    assert_eq!(user_records.len(), 3);
}

#[test]
fn test_agent_summary() {
    let mut collector = RequestMetricsCollector::with_capacity(100);

    collector.record(make_record("npc1", "user1", "openai", 100, true, false));
    collector.record(make_record("npc1", "user1", "openai", 200, true, true));
    collector.record(make_record("npc1", "user1", "groq", 300, false, false));

    let summary = collector.agent_summary("npc1").unwrap();
    assert_eq!(summary.total_requests, 3);
    assert_eq!(summary.total_errors, 1);
    assert_eq!(summary.total_cached, 1);
    let avg_latency_ms = summary.window_latency_ms as f64 / summary.total_requests as f64;
    assert!(avg_latency_ms > 0.0);
    assert_eq!(summary.p50_latency_ms, 200);
}

#[test]
fn test_global_summary() {
    let mut collector = RequestMetricsCollector::with_capacity(100);

    collector.record(make_record("npc1", "user1", "openai", 100, true, false));
    collector.record(make_record("npc2", "user1", "groq", 50, true, true));

    let summary = collector.global_summary();
    assert_eq!(summary.total_requests, 2);
    assert_eq!(summary.active_agents, 2);
    assert_eq!(summary.active_users, 1);
    let cache_hit_rate = summary.total_cached as f64 / summary.total_requests as f64;
    assert!((cache_hit_rate - 0.5).abs() < f64::EPSILON);
}

#[test]
fn test_capacity_limit() {
    let mut collector = RequestMetricsCollector::with_capacity(3);

    for i in 0..5 {
        collector.record(make_record("npc1", "user1", "openai", i, true, false));
    }

    assert_eq!(collector.record_count(), 3);
    assert_eq!(collector.global_summary().total_requests, 5);
}

#[test]
fn llm_metrics_test_top_agents() {
    let mut collector = RequestMetricsCollector::with_capacity(100);

    for _ in 0..5 {
        collector.record(make_record("npc1", "user1", "openai", 100, true, false));
    }
    for _ in 0..2 {
        collector.record(make_record("npc2", "user1", "openai", 100, true, false));
    }

    let top = collector.top_agents(10);
    assert_eq!(top.len(), 2);
    assert_eq!(top[0].agent_id, "npc1");
    assert_eq!(top[0].total_requests, 5);
}

#[test]
fn test_register_and_list() {
    let mut registry: LLMProviderRegistry<()> = LLMProviderRegistry::new(FailoverStrategy::Priority);

    registry.register("provider_a".to_string(), 0, true, ()).unwrap();
    registry.register("provider_b".to_string(), 1, true, ()).unwrap();

    assert_eq!(registry.provider_count(), 2);
    assert!(registry.get("provider_a").is_some());
    assert!(registry.get("nonexistent").is_none());
}

#[test]
fn test_unregister() {
    let mut registry: LLMProviderRegistry<()> = LLMProviderRegistry::new(FailoverStrategy::Priority);

    registry.register("provider_a".to_string(), 0, true, ()).unwrap();
    assert!(registry.unregister("provider_a"));
    assert_eq!(registry.provider_count(), 0);
}

#[test]
fn test_list_ordered_by_priority() {
    let mut registry: LLMProviderRegistry<()> = LLMProviderRegistry::new(FailoverStrategy::Priority);

    registry.register("low".to_string(), 10, true, ()).unwrap();
    registry.register("high".to_string(), 0, true, ()).unwrap();

    let order = registry.ordered();
    let providers = registry.providers();
    assert_eq!(providers[order[0]].name, "high");
    assert_eq!(providers[order[1]].name, "low");
}

#[test]
fn test_max_providers_limit() {
    let mut registry: LLMProviderRegistry<()> = LLMProviderRegistry::new(FailoverStrategy::Priority);

    for i in 0..20u32 {
        registry.register(format!("p{}", i), i, true, ()).unwrap();
    }

    let result = registry.register("overflow".to_string(), 99, true, ());
    assert!(result.is_err());
}

#[test]
fn test_metrics_recording() {
    let mut tracker = MetricsTracker::new(100);

    let metric = RequestMetrics::new("agent1".to_string(), "user1".to_string(), "venice".to_string(), 15, false);

    tracker.record(metric);

    let agent_metrics = tracker.get_agent_metrics("agent1").unwrap();
    assert_eq!(agent_metrics.total_requests, 1);
    assert_eq!(agent_metrics.cache_misses, 1);

    let user_metrics = tracker.get_user_metrics("user1").unwrap();
    assert_eq!(user_metrics.total_requests, 1);
}

#[test]
fn test_cache_hit_rate() {
    let mut tracker = MetricsTracker::new(100);

    tracker.record(RequestMetrics::new("a1".into(), "u1".into(), "p1".into(), 10, true));
    tracker.record(RequestMetrics::new("a1".into(), "u1".into(), "p1".into(), 10, true));
    tracker.record(RequestMetrics::new("a1".into(), "u1".into(), "p1".into(), 10, false));

    let metrics = tracker.get_agent_metrics("a1").unwrap();
    let total = metrics.cache_hits + metrics.cache_misses;
    let rate = (metrics.cache_hits as f64 / total as f64) * 100.0;
    assert_eq!(rate, 66.66666666666666);
}

#[test]
fn metrics_test_top_agents() {
    let mut tracker = MetricsTracker::new(100);

    for _ in 0..5 {
        tracker.record(RequestMetrics::new("a1".into(), "u1".into(), "p1".into(), 10, false));
    }
    for _ in 0..3 {
        tracker.record(RequestMetrics::new("a2".into(), "u1".into(), "p1".into(), 10, false));
    }

    let top = tracker.get_top_agents(2);
    assert_eq!(top[0].0, "a1");
    assert_eq!(top[0].1, 5);
    assert_eq!(top[1].0, "a2");
    assert_eq!(top[1].1, 3);
}

#[test]
fn test_flat_terrain_walkable() {
    let mesh = NavigationMesh::new_flat(100, 64);
    let options = PathfindOptions::default();

    assert!(mesh.is_walkable(0, 64, 0, &options));
    assert!(mesh.is_walkable(10, 64, 10, &options));
}

#[test]
fn test_blocked_terrain() {
    let mut mesh = NavigationMesh::new_flat(100, 64);
    mesh.block(5, 64, 5);

    let options = PathfindOptions::default();

    assert!(!mesh.is_walkable(5, 64, 5, &options));
    assert!(mesh.is_walkable(5, 65, 5, &options));
}

#[test]
fn test_water_avoidance() {
    let mut mesh = NavigationMesh::new_flat(100, 64);
    mesh.add_water(3, 64, 3);

    let options_with_water = PathfindOptions { avoid_water: true, ..Default::default() };
    let options_without_water = PathfindOptions { avoid_water: false, ..Default::default() };

    assert!(!mesh.is_walkable(3, 64, 3, &options_with_water));
    assert!(mesh.is_walkable(3, 64, 3, &options_without_water));
}

#[test]
fn test_lava_avoidance() {
    let mut mesh = NavigationMesh::new_flat(100, 64);
    mesh.add_lava(7, 64, 7);

    let options = PathfindOptions { avoid_lava: true, ..Default::default() };

    assert!(!mesh.is_walkable(7, 64, 7, &options));
}

#[test]
fn test_fall_distance_limit() {
    let mesh = NavigationMesh::new_flat(100, 64);

    let options = PathfindOptions { max_fall_distance: 3, ..Default::default() };

    assert!(mesh.is_walkable(0, 61, 0, &options));
    assert!(!mesh.is_walkable(0, 60, 0, &options));
}

#[test]
fn test_boundary_limits() {
    let mesh = NavigationMesh::new_flat(50, 64);
    let options = PathfindOptions::default();

    assert!(!mesh.is_walkable(51, 64, 0, &options));
    assert!(!mesh.is_walkable(0, 64, 51, &options));
    assert!(mesh.is_walkable(50, 64, 50, &options));
}

#[test]
fn test_straight_line_path() {
    let engine = PathfindingEngine::new(NavigationMesh::new_flat(100, 64));
    let options = PathfindOptions::default();

    let timer = std::time::Instant::now();
    let result = engine.find_path("overworld", (0, 64, 0), "overworld", (5, 64, 0), &options);
    let computed_in_ms = timer.elapsed().as_millis();

    match result {
        PathOutcome::Searched { path, .. } => {
            assert!(!path.is_empty());
            assert!(path_cost(&path) > 0);
            assert!(computed_in_ms < 10000);
        }
        other => panic!("unexpected outcome {:?}", other),
    }
}

#[test]
fn test_long_distance_path() {
    let engine = PathfindingEngine::new(NavigationMesh::new_flat(200, 64));
    let options = PathfindOptions::default();

    let result = engine.find_path("overworld", (0, 64, 0), "overworld", (20, 64, 20), &options);

    match result {
        PathOutcome::Searched { path, .. } => assert!(!path.is_empty()),
        other => panic!("unexpected outcome {:?}", other),
    }
}

#[test]
fn test_different_worlds() {
    let engine = PathfindingEngine::new(NavigationMesh::new_flat(100, 64));
    let options = PathfindOptions::default();

    let result = engine.find_path("overworld", (0, 64, 0), "nether", (5, 64, 0), &options);

    assert_eq!(result, PathOutcome::DifferentWorlds);
}

#[test]
fn test_same_position() {
    let engine = PathfindingEngine::new(NavigationMesh::new_flat(100, 64));
    let options = PathfindOptions::default();

    let result = engine.find_path("overworld", (5, 64, 5), "overworld", (5, 64, 5), &options);

    assert_eq!(result, PathOutcome::SameCell);
}

#[test]
fn test_parse_word_command() {
    let cmd = MovementCommandParser::parse_bracket_fields("Voy a descansar [navigate:bed]");
    assert!(cmd.is_some());
    assert_eq!(cmd.unwrap(), BracketCommand::Target { target: "bed".to_string(), speed: None });
}

#[test]
fn test_parse_location_command() {
    let cmd = MovementCommandParser::parse_bracket_fields("[location:cama]");
    assert!(cmd.is_some());
    assert_eq!(cmd.unwrap(), BracketCommand::Target { target: "cama".to_string(), speed: None });
}

#[test]
fn test_parse_coordinate_command() {
    let cmd = MovementCommandParser::parse_bracket_fields("[coords:10.5,0.0,20.3,house]");
    assert!(cmd.is_some());
    match cmd.unwrap() {
        BracketCommand::Coordinates { fields } => {
            assert_eq!(fields[0].parse::<f64>().unwrap(), 10.5);
            assert_eq!(fields[1].parse::<f64>().unwrap(), 0.0);
            assert_eq!(fields[2].parse::<f64>().unwrap(), 20.3);
            assert_eq!(fields.get(3), Some(&"house".to_string()));
        }
        _ => panic!("Expected NavigateCoords"),
    }
}

#[test]
fn test_parse_relative_command() {
    let cmd = MovementCommandParser::parse_bracket_fields("[move:5,0,-3]");
    assert!(cmd.is_some());
    match cmd.unwrap() {
        BracketCommand::Relative { fields } => {
            assert_eq!(fields[0].parse::<f64>().unwrap(), 5.0);
            assert_eq!(fields[1].parse::<f64>().unwrap(), 0.0);
            assert_eq!(fields[2].parse::<f64>().unwrap(), -3.0);
            assert_eq!(fields.len(), 3);
        }
        _ => panic!("Expected NavigateRelative"),
    }
}

#[test]
fn test_parse_natural_language_english() {
    let cmd = parse_natural_language("I will go to the kitchen now");
    assert!(cmd.is_some());
    assert_eq!(cmd.unwrap(), "kitchen now");
}

#[test]
fn test_parse_natural_language_spanish() {
    let cmd = parse_natural_language("Voy a ir a la cama");
    assert!(cmd.is_some());
}

#[test]
fn test_parse_with_speed() {
    let cmd = MovementCommandParser::parse_bracket_fields("[navigate:bed|2.5]");
    assert!(cmd.is_some());
    match cmd.unwrap() {
        BracketCommand::Target { target, speed } => {
            assert_eq!(target, "bed");
            assert_eq!(speed.unwrap().parse::<f64>().unwrap(), 2.5);
        }
        other => panic!("unexpected command {:?}", other),
    }
}

#[test]
fn test_full_parse_response() {
    let response = "Me voy a dormir [navigate:cama] buenas noches";
    let bracket = MovementCommandParser::parse_bracket_fields(response);
    assert!(bracket.is_some());
    assert_eq!(bracket.into_iter().count(), 1);
}

#[test]
fn test_complexity_simple() {
    let msg = "hello";
    let normalized = msg.to_lowercase();
    let complexity = RequestRouter::analyze_message_complexity(msg, &normalized);
    assert!((complexity.hits as f32 / complexity.of as f32) < 0.3);
}

#[test]
fn test_complexity_complex() {
    let msg = "Why do you think sky is blue?";
    let normalized = msg.to_lowercase();
    let complexity = RequestRouter::analyze_message_complexity(msg, &normalized);
    assert!((complexity.hits as f32 / complexity.of as f32) >= 0.3);
}

#[test]
fn test_warmup_messages() {
    let warmer = PredictiveCacheWarmer::new();
    let messages = warmer.get_warmup_messages("merchant");
    assert!(!messages.is_empty());
    assert!(messages.contains(&"What are you selling?".to_string()));
}

#[test]
fn test_templates() {
    let response = ResponseTemplates::greeting("TestNPC", "morning");
    assert!(response.response.contains("Good morning"));
    assert_eq!(response.latency_ms, 0);

    let merchant = ResponseTemplates::merchant_greeting("Trader Bob");
    assert!(merchant.response.contains("supplies"));
}

#[test]
fn test_priority_calculation() {
    // Distances 10.0, 3.0, 7.0, 25.0 and 150.0 blocks fall in these bands.
    assert_eq!(Priority::calculate(DistanceBand::Under30, true, 5, 3), Priority::Critical);
    assert_eq!(Priority::calculate(DistanceBand::Under5, false, 8, 0), Priority::High);
    assert_eq!(Priority::calculate(DistanceBand::Under10, false, 5, 0), Priority::High);
    assert_eq!(Priority::calculate(DistanceBand::Under30, false, 5, 0), Priority::Medium);
    assert_eq!(Priority::calculate(DistanceBand::Far, false, 5, 0), Priority::Background);
}

fn request(agent: &str, priority: Priority) -> NPCRequest {
    NPCRequest::new(agent.into(), "user1".into(), "test".into(), ChatContext::default(), priority)
}

#[test]
fn test_queue_ordering() {
    let mut queue = NPCPriorityQueue::new(10, 100);

    queue.submit(request("npc1", Priority::Low)).unwrap();
    queue.submit(request("npc2", Priority::High)).unwrap();

    let first = queue.pop().unwrap();
    assert_eq!(first.priority, Priority::High);

    let second = queue.pop().unwrap();
    assert_eq!(second.priority, Priority::Low);
}

#[test]
fn test_queue_limit() {
    let mut queue = NPCPriorityQueue::new(10, 2);

    assert!(queue.submit(request("npc1", Priority::Medium)).is_ok());
    assert!(queue.submit(request("npc2", Priority::Medium)).is_ok());
    assert!(queue.submit(request("npc3", Priority::Low)).is_err());
}

#[test]
fn test_queue_discard_metrics() {
    let mut queue = NPCPriorityQueue::new(10, 1);

    assert!(queue.submit(request("npc1", Priority::Medium)).is_ok());
    assert!(queue.submit(request("npc2", Priority::Low)).is_err());

    let stats = queue.stats();
    assert_eq!(stats.total_discarded, 1);
    assert_eq!(stats.discarded_by_priority.get(Priority::Low), 1);
}

#[test]
fn test_queue_processed_and_max_wait() {
    let mut queue = NPCPriorityQueue::new(10, 100);

    queue.submit(request("npc1", Priority::High)).unwrap();

    let started = std::time::Instant::now();
    while started.elapsed() < std::time::Duration::from_millis(10) {}

    let popped = queue.pop().unwrap();
    assert_eq!(popped.agent_id, "npc1");

    let stats = queue.stats();
    assert_eq!(stats.total_processed, 1);
    assert!(stats.max_wait_time_ms >= 10);
}
