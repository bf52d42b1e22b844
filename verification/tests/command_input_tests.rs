use blaniel_npc::adapters::{
    adapter_for_type, anthropic_text_blocks, chat_messages, gemini_role, joined_reply, openai_reply, split_system,
    ChatMessage,
};
use blaniel_npc::cli_input::{
    action_settings, check_api_key, metrics_view, nav_mode_at, parse_categories, parse_category, parse_genre,
    parse_nav_mode, parse_provider_type, positions_source, ActionCategory, GameGenre, InitCommand, MetricsView,
    NavigationMode, PositionsSource, ProviderKind, SetupCommand,
};
use blaniel_npc::env_setup::{env_preset, provider_from_env, providers_from_env, EnvValues, ENV_PRESET_COUNT};
use blaniel_npc::llm_flow::{AdapterKind, LLMError};
use blaniel_npc::api_checks::ApiError;
use blaniel_npc::provider_admin::{provider_label, registration};

#[test]
fn provider_names_and_aliases() {
    assert_eq!(parse_provider_type("openai"), Ok(ProviderKind::OpenAI));
    assert_eq!(parse_provider_type("Anthropic"), Ok(ProviderKind::Anthropic));
    assert_eq!(parse_provider_type("GOOGLE"), Ok(ProviderKind::Gemini));
    assert_eq!(parse_provider_type("grok"), Ok(ProviderKind::XAi));
    assert_eq!(parse_provider_type("lm-studio"), Ok(ProviderKind::LMStudio));
    assert_eq!(parse_provider_type("LMStudio"), Ok(ProviderKind::LMStudio));
    assert_eq!(parse_provider_type("custom"), Ok(ProviderKind::Custom));
    assert_eq!(
        parse_provider_type("Bard"),
        Err("Unknown provider 'Bard'. Available: openai, anthropic, gemini, xai, perplexity, venice, together, groq, mistral, deepseek, fireworks, openrouter, ollama, lmstudio, custom".to_string())
    );
}

#[test]
fn navigation_modes() {
    assert_eq!(parse_nav_mode("Hybrid"), Ok(NavigationMode::Hybrid));
    assert_eq!(parse_nav_mode("word"), Ok(NavigationMode::Word));
    assert_eq!(
        parse_nav_mode("walk"),
        Err("Invalid navigation mode 'walk'. Use: word, coordinate, hybrid, free".to_string())
    );
    assert_eq!(nav_mode_at(0), NavigationMode::Word);
    assert_eq!(nav_mode_at(1), NavigationMode::Coordinate);
    assert_eq!(nav_mode_at(2), NavigationMode::Hybrid);
    assert_eq!(nav_mode_at(3), NavigationMode::Free);
    assert_eq!(nav_mode_at(9), NavigationMode::Hybrid);
}

#[test]
fn genres_fall_back_to_custom_in_lower_case() {
    assert_eq!(parse_genre("RPG"), GameGenre::Rpg);
    assert_eq!(parse_genre("visual_novel"), GameGenre::VisualNovel);
    assert_eq!(parse_genre("Deckbuilder"), GameGenre::Custom("deckbuilder".to_string()));
}

#[test]
fn categories_are_matched_exactly() {
    assert_eq!(parse_category("combat"), Ok(ActionCategory::Combat));
    assert_eq!(parse_category("quest"), Ok(ActionCategory::Quest));
    assert_eq!(parse_category("Combat"), Err("Unknown action category: Combat".to_string()));
    let names = vec!["trading".to_string(), "music".to_string()];
    assert_eq!(parse_categories(&names), Ok(vec![ActionCategory::Trading, ActionCategory::Music]));
    let bad = vec!["trading".to_string(), "juggling".to_string(), "dancing".to_string()];
    assert_eq!(parse_categories(&bad), Err("Unknown action category: juggling".to_string()));
}

#[test]
fn action_settings_defaults() {
    let s = action_settings("rpg", None, None, None, None).ok().unwrap();
    assert_eq!(s.genre, GameGenre::Rpg);
    assert!(s.enabled.is_empty());
    assert_eq!(s.introduction, "An AI-powered NPC.");
    assert_eq!(s.action_explain, "Use available actions to interact.");
    assert_eq!(s.movement_explain, "Move freely within bounds.");
    let t = action_settings(
        "horror",
        Some(vec!["stealth".to_string()]),
        Some("A ghost.".to_string()),
        None,
        Some("Float.".to_string()),
    )
    .ok()
    .unwrap();
    assert_eq!(t.genre, GameGenre::Horror);
    assert_eq!(t.enabled, vec![ActionCategory::Stealth]);
    assert_eq!(t.introduction, "A ghost.");
    assert_eq!(t.movement_explain, "Float.");
    assert_eq!(
        action_settings("rpg", Some(vec!["flying".to_string()]), None, None, None).err(),
        Some("Unknown action category: flying".to_string())
    );
}

#[test]
fn init_defaults_and_key_check() {
    let c = InitCommand { url: None, key: None };
    assert_eq!(c.api_url(), "http://localhost:3001");
    let d = InitCommand { url: Some("https://npc.example".to_string()), key: None };
    assert_eq!(d.api_url(), "https://npc.example");
    assert_eq!(check_api_key(""), Err("API key cannot be empty".to_string()));
    assert_eq!(check_api_key("k"), Ok(()));
}

#[test]
fn scene_positions_come_from_a_file_first() {
    assert_eq!(
        positions_source(Some("a.json".to_string()), Some("[]".to_string())),
        Ok(PositionsSource::File("a.json".to_string()))
    );
    assert_eq!(positions_source(None, Some("[]".to_string())), Ok(PositionsSource::Inline("[]".to_string())));
    assert_eq!(positions_source(None, None), Err("Provide --file <path> or --positions <json>".to_string()));
}

#[test]
fn metrics_views_in_order_of_precedence() {
    assert_eq!(metrics_view(true, Some("a".to_string()), None, true, true), MetricsView::Global);
    assert_eq!(metrics_view(false, Some("a".to_string()), Some("u".to_string()), true, false), MetricsView::Agent("a".to_string()));
    assert_eq!(metrics_view(false, None, Some("u".to_string()), true, false), MetricsView::User("u".to_string()));
    assert_eq!(metrics_view(false, None, None, true, true), MetricsView::TopAgents);
    assert_eq!(metrics_view(false, None, None, false, true), MetricsView::Recent);
    assert_eq!(metrics_view(false, None, None, false, false), MetricsView::Global);
}

#[test]
fn setup_wizard_texts() {
    assert_eq!(SetupCommand::default_introduction("rpg"), "You are an NPC in a rpg game world.");
    assert_eq!(SetupCommand::default_movement_explain(2), "You navigate using hybrid mode.");
    assert_eq!(SetupCommand::default_movement_explain(0), "You navigate using word mode.");
}

fn values(key: Option<&str>) -> EnvValues {
    EnvValues {
        api_key: key.map(|k| k.to_string()),
        base_url: None,
        model: None,
        max_tokens: None,
        timeout_ms: None,
        priority: None,
        system_prompt: None,
    }
}

#[test]
fn env_presets_table() {
    assert_eq!(ENV_PRESET_COUNT, 13);
    let (prefix, kind, url, model) = env_preset(0);
    assert_eq!((prefix, kind, url, model), ("OPENAI", ProviderKind::OpenAI, "https://api.openai.com/v1", "gpt-4o-mini"));
    let (prefix, kind, url, model) = env_preset(12);
    assert_eq!((prefix, kind, url, model), ("OLLAMA", ProviderKind::Ollama, "http://localhost:11434/v1", "llama3"));
}

#[test]
fn env_provider_defaults_and_overrides() {
    assert!(provider_from_env(0, &values(None), 0).is_none());
    assert!(provider_from_env(0, &values(Some("")), 0).is_none());
    assert!(provider_from_env(1, &values(Some("sk")), 4).is_none());
    let mut a = values(Some("sk"));
    a.model = Some("sonnet".to_string());
    let p = provider_from_env(1, &a, 4).unwrap();
    assert_eq!(p.name, "anthropic");
    assert_eq!(p.kind, ProviderKind::Anthropic);
    assert_eq!(p.base_url, "https://api.anthropic.com/v1");
    assert_eq!(p.model, "sonnet");
    assert_eq!(p.max_tokens, 150);
    assert_eq!(p.timeout_ms, 30000);
    assert_eq!(p.priority, 4);
    let mut v = values(Some("key"));
    v.base_url = Some("http://proxy".to_string());
    v.max_tokens = Some("512".to_string());
    v.timeout_ms = Some("soon".to_string());
    v.priority = Some("9".to_string());
    v.system_prompt = Some("Be brief.".to_string());
    let q = provider_from_env(7, &v, 0).unwrap();
    assert_eq!(q.name, "groq");
    assert_eq!(q.base_url, "http://proxy");
    assert_eq!(q.max_tokens, 512);
    assert_eq!(q.timeout_ms, 30000);
    assert_eq!(q.priority, 9);
    assert_eq!(q.system_prompt.as_deref(), Some("Be brief."));
    let mut w = values(Some("key"));
    w.max_tokens = Some("4294967296".to_string());
    assert_eq!(provider_from_env(2, &w, 0).unwrap().max_tokens, 150);
}

#[test]
fn env_priorities_follow_the_order_of_configuration() {
    let mut second = values(Some("a"));
    second.model = Some("m".to_string());
    let vals = vec![values(None), second, values(Some("")), values(Some("b")), values(Some("c"))];
    let ps = providers_from_env(&vals);
    assert_eq!(ps.len(), 3);
    assert_eq!(ps[0].name, "anthropic");
    assert_eq!(ps[0].priority, 0);
    assert_eq!(ps[1].name, "xai");
    assert_eq!(ps[1].priority, 1);
    assert_eq!(ps[2].name, "perplexity");
    assert_eq!(ps[2].priority, 2);
    assert_eq!(ps[2].preset, 4);
}

#[test]
fn formats_per_provider_kind() {
    assert_eq!(adapter_for_type(ProviderKind::Anthropic), AdapterKind::Anthropic);
    assert_eq!(adapter_for_type(ProviderKind::Gemini), AdapterKind::Gemini);
    assert_eq!(adapter_for_type(ProviderKind::Groq), AdapterKind::OpenAI);
    assert_eq!(adapter_for_type(ProviderKind::Ollama), AdapterKind::OpenAI);
}

fn msg(role: &str, content: &str) -> ChatMessage {
    ChatMessage { role: role.to_string(), content: content.to_string() }
}

#[test]
fn system_text_is_carried_apart() {
    let ms = chat_messages("You are helpful.".to_string(), "Hi".to_string());
    assert_eq!(ms, vec![msg("system", "You are helpful."), msg("user", "Hi")]);
    let (system, rest) = split_system(&ms);
    assert_eq!(system.as_deref(), Some("You are helpful."));
    assert_eq!(rest, vec![msg("user", "Hi")]);
    let many = vec![msg("system", "a"), msg("user", "q"), msg("system", "b"), msg("assistant", "r")];
    let (system, rest) = split_system(&many);
    assert_eq!(system.as_deref(), Some("b"));
    assert_eq!(rest, vec![msg("user", "q"), msg("assistant", "r")]);
    let (none, all) = split_system(&vec![msg("user", "q")]);
    assert!(none.is_none());
    assert_eq!(all.len(), 1);
    assert_eq!(gemini_role("assistant"), "model");
    assert_eq!(gemini_role("user"), "user");
    assert_eq!(gemini_role("tool"), "user");
}

#[test]
fn replies_read_from_answers() {
    assert_eq!(openai_reply(None, Some(Some("Hello!".to_string()))), Ok("Hello!".to_string()));
    assert_eq!(openai_reply(None, Some(None)), Err(LLMError::EmptyResponse));
    assert_eq!(openai_reply(None, None), Err(LLMError::EmptyResponse));
    assert_eq!(
        openai_reply(Some("quota".to_string()), Some(Some("x".to_string()))),
        Err(LLMError::InvalidResponse("quota".to_string()))
    );
    let blocks = vec![
        ("text".to_string(), Some("Hello ".to_string())),
        ("tool_use".to_string(), Some("ignored".to_string())),
        ("text".to_string(), Some("from Anthropic!".to_string())),
    ];
    let pieces = anthropic_text_blocks(&blocks);
    assert_eq!(joined_reply(&pieces), Ok("Hello from Anthropic!".to_string()));
    assert_eq!(joined_reply(&vec![None, Some(String::new())]), Err(LLMError::EmptyResponse));
    assert_eq!(joined_reply(&vec![Some("Hello from ".to_string()), None, Some("Gemini!".to_string())]), Ok("Hello from Gemini!".to_string()));
}

fn bad(m: &str) -> Option<ApiError> {
    Some(ApiError::BadRequest(m.to_string()))
}

#[test]
fn provider_registrations() {
    let none: Vec<&str> = vec![];
    let r = registration(ProviderKind::Groq, None, Some("https://api.groq.com/openai/v1"), 150, true, 30000, &none, None).ok().unwrap();
    assert_eq!(r.name, "groq");
    assert_eq!(r.base_url, "https://api.groq.com/openai/v1");
    assert_eq!(r.model, "gpt-4o-mini");
    let c = registration(ProviderKind::Custom, Some("http://localhost:8080/v1".to_string()), None, 150, true, 30000, &vec!["X-Org"], Some("mixtral".to_string())).ok().unwrap();
    assert_eq!(c.name, "custom_mixtral");
    assert_eq!(c.model, "mixtral");
    let l = registration(ProviderKind::LMStudio, Some("http://localhost:1234/v1".to_string()), None, 150, true, 30000, &none, None).ok().unwrap();
    assert_eq!(l.name, "custom");
    assert_eq!(l.model, "unknown");
    assert_eq!(registration(ProviderKind::Custom, None, None, 150, true, 30000, &none, None).err(), bad("base_url is required for custom providers"));
    assert_eq!(
        registration(ProviderKind::OpenAI, Some("http://127.0.0.1:9000".to_string()), None, 150, true, 30000, &none, None).err(),
        bad("Internal/local URLs not allowed for remote providers")
    );
    assert_eq!(registration(ProviderKind::OpenAI, Some("ftp://x.org".to_string()), None, 150, true, 30000, &none, None).err(), bad("base_url must use http or https"));
    assert_eq!(registration(ProviderKind::OpenAI, Some("not a url".to_string()), None, 150, true, 30000, &none, None).err(), bad("Invalid base_url format"));
    assert_eq!(registration(ProviderKind::OpenAI, Some("https://x.org".to_string()), None, 0, true, 30000, &none, None).err(), bad("max_tokens must be between 1 and 32768"));
    assert_eq!(registration(ProviderKind::OpenAI, Some("https://x.org".to_string()), None, 10, false, 30000, &none, None).err(), bad("temperature must be between 0.0 and 2.0"));
    assert_eq!(registration(ProviderKind::OpenAI, Some("https://x.org".to_string()), None, 10, true, 999, &none, None).err(), bad("timeout_ms must be between 1000 and 120000"));
    assert_eq!(registration(ProviderKind::OpenAI, Some("https://x.org".to_string()), None, 10, true, 1000, &vec!["Ok-1", "bad key"], None).err(), bad("Header key contains invalid characters"));
    assert_eq!(registration(ProviderKind::Custom, Some("https://x.org".to_string()), None, 10, true, 1000, &none, Some(String::new())).err(), bad("model name is required for custom providers"));
    assert_eq!(provider_label(ProviderKind::LMStudio), "lmstudio");
    assert_eq!(provider_label(ProviderKind::XAi), "xai");
}
