use blaniel_npc::pathfinding::path_cost;
use blaniel_npc::cli_input::{ActionCategory, GameGenre, NavigationMode, SetupCommand};
use blaniel_npc::chat::ChatResponse;
use blaniel_npc::llm_flow::{can_stream, line_step, stream_piece, AdapterKind, LineStep};
use blaniel_npc::navigation::{NavigationMesh, PathfindOptions};
use blaniel_npc::pathfinding::{PathOutcome, PathfindingEngine};
use blaniel_npc::router::{ChatAction, ChatEvent, RequestRouter};

fn one_step_apart(a: (i64, i64, i64), b: (i64, i64, i64)) -> bool {
    let d = [(a.0 - b.0).abs(), (a.1 - b.1).abs(), (a.2 - b.2).abs()];
    d.iter().all(|&x| x <= 1) && d.iter().any(|&x| x == 1)
}

#[test]
fn search_reaches_goal_by_single_steps() {
    let engine = PathfindingEngine::new(NavigationMesh::new_flat(20, 64));
    let options = PathfindOptions::default();
    match engine.find_path("w", (0, 64, 0), "w", (4, 64, 3), &options) {
        PathOutcome::Searched { path, reached } => {
            assert!(reached);
            assert_eq!(path[0], (0, 64, 0));
            assert_eq!(*path.last().unwrap(), (4, 64, 3));
            for pair in path.windows(2) {
                assert!(one_step_apart(pair[0], pair[1]));
            }
        }
        other => panic!("unexpected outcome {:?}", other),
    }
}

#[test]
fn search_for_unreachable_goal_gives_start_alone() {
    let engine = PathfindingEngine::new(NavigationMesh::new_flat(3, 64));
    let options = PathfindOptions::default();
    let result = engine.find_path("w", (0, 64, 0), "w", (30, 64, 0), &options);
    assert_eq!(result, PathOutcome::Searched { path: vec![(0, 64, 0)], reached: false });
}

#[test]
fn search_with_zero_budget_gives_start_twice() {
    let engine = PathfindingEngine::new(NavigationMesh::new_flat(20, 64));
    let mut options = PathfindOptions::default();
    options.max_iterations = Some(0);
    let result = engine.find_path("w", (0, 64, 0), "w", (5, 64, 0), &options);
    assert_eq!(result, PathOutcome::Searched { path: vec![(0, 64, 0), (0, 64, 0)], reached: false });
}

#[test]
fn search_with_small_budget_stops_on_a_walk() {
    let engine = PathfindingEngine::new(NavigationMesh::new_flat(20, 64)).with_max_iterations(1);
    let options = PathfindOptions::default();
    match engine.find_path("w", (0, 64, 0), "w", (9, 64, 0), &options) {
        PathOutcome::Searched { path, reached } => {
            assert!(!reached);
            assert_eq!(path.len(), 2);
            assert_eq!(path[0], (0, 64, 0));
            assert!(one_step_apart(path[0], path[1]));
        }
        other => panic!("unexpected outcome {:?}", other),
    }
}

#[test]
fn only_openai_format_streams() {
    assert!(can_stream(AdapterKind::OpenAI));
    assert!(!can_stream(AdapterKind::Anthropic));
    assert!(!can_stream(AdapterKind::Gemini));
}

#[test]
fn stream_piece_passes_texts_until_done() {
    let text = "data: {\"choices\":[{\"delta\":{\"content\":\"Hel\"}}]}\r\n: keep-alive\ndata: {\"choices\":[{\"delta\":{}}]}\ndata: {\"choices\":[{\"delta\":{\"content\":\"lo\"}}]}\ndata: [DONE]\ndata: {\"choices\":[{\"delta\":{\"content\":\"late\"}}]}\n";
    let piece = stream_piece(text);
    assert_eq!(piece.deltas, vec!["Hel".to_string(), "lo".to_string()]);
    assert!(piece.done);
}

#[test]
fn stream_piece_without_done_line() {
    let piece = stream_piece("data: {\"choices\":[{\"delta\":{\"content\":\"a\"}}]}\nnot json\ndata: oops\n");
    assert_eq!(piece.deltas, vec!["a".to_string()]);
    assert!(!piece.done);
}

#[test]
fn payload_without_content_is_ignored() {
    assert_eq!(line_step("data: {\"choices\":[{\"delta\":{\"role\":\"assistant\"}}]}"), LineStep::Ignore);
    assert_eq!(line_step("data: {\"choices\":[{\"delta\":{\"content\":7}}]}"), LineStep::Ignore);
    assert_eq!(line_step("data: not json"), LineStep::Ignore);
}

fn reply(text: &str, source: &str) -> ChatResponse {
    ChatResponse {
        response: text.to_string(),
        emotion: "neutral".to_string(),
        animation: "talk".to_string(),
        source: source.to_string(),
        latency_ms: 10,
        cached: None,
    }
}

#[test]
fn chat_steps_check_caches_first() {
    let router = RequestRouter::new();
    assert!(matches!(router.chat_step("hi there", ChatEvent::Started), ChatAction::LookUpMemory));
    assert!(matches!(router.chat_step("hi there", ChatEvent::MemoryLookedUp(None)), ChatAction::LookUpRedis));
    match router.chat_step("hi there", ChatEvent::MemoryLookedUp(Some(reply("a", "llm")))) {
        ChatAction::Reply { response, mark_cached, remember, store_for } => {
            assert_eq!(response.response, "a");
            assert!(mark_cached);
            assert!(!remember);
            assert_eq!(store_for, None);
        }
        _ => panic!("expected a reply"),
    }
    match router.chat_step("hi there", ChatEvent::RedisLookedUp(Some(reply("b", "llm")))) {
        ChatAction::Reply { response, mark_cached, remember, store_for } => {
            assert_eq!(response.response, "b");
            assert!(mark_cached);
            assert!(remember);
            assert_eq!(store_for, None);
        }
        _ => panic!("expected a reply"),
    }
}

#[test]
fn chat_steps_route_uncached_messages() {
    let router = RequestRouter::new();
    match router.chat_step("thanks a lot", ChatEvent::RedisLookedUp(None)) {
        ChatAction::Reply { response, mark_cached, remember, store_for } => {
            assert_eq!(response.source, "template");
            assert_eq!(response.response, "You're welcome! I'm here to help.");
            assert!(!mark_cached);
            assert!(remember);
            assert_eq!(store_for, Some(300));
        }
        _ => panic!("expected a template reply"),
    }
    let involved = "Why do you think the sky is blue, and how does it feel?";
    assert!(matches!(router.chat_step(involved, ChatEvent::RedisLookedUp(None)), ChatAction::AskModels));
}

#[test]
fn chat_steps_fall_back_to_backend() {
    let router = RequestRouter::new();
    let msg = "Why do you think so?";
    assert!(matches!(router.chat_step(msg, ChatEvent::ModelsAnswered(None)), ChatAction::AskBackend));
    assert!(matches!(router.chat_step(msg, ChatEvent::BackendAnswered(None)), ChatAction::Fail));
    match router.chat_step(msg, ChatEvent::ModelsAnswered(Some(reply("c", "llm:x")))) {
        ChatAction::Reply { response, mark_cached, remember, store_for } => {
            assert_eq!(response.response, "c");
            assert!(!mark_cached);
            assert!(!remember);
            assert_eq!(store_for, Some(30));
        }
        _ => panic!("expected a reply"),
    }
    match router.chat_step(msg, ChatEvent::BackendAnswered(Some(reply("d", "nextjs")))) {
        ChatAction::Reply { response, store_for, .. } => {
            assert_eq!(response.response, "d");
            assert_eq!(store_for, Some(30));
        }
        _ => panic!("expected a reply"),
    }
}

use blaniel_npc::command_parser::MovementCommandParser;

#[test]
fn stripping_twice_changes_nothing() {
    let inputs = [
        "Sure [navigate:bed] I'll go [look:around]",
        "[navigate:a[navigate:x]]",
        "  Moving[move:1,0,-1]now [coords:1,2,3]  ",
        "[] [location:home] []",
    ];
    for input in inputs {
        let once = MovementCommandParser::strip_commands(input);
        let twice = MovementCommandParser::strip_commands(&once);
        assert_eq!(once, twice);
    }
}

#[test]
fn stripping_leaves_no_command_tag() {
    assert_eq!(MovementCommandParser::strip_commands("Sure [navigate:bed] I'll go [look:around]"), "Sure I'll go [look:around]");
    assert_eq!(MovementCommandParser::strip_commands("[navigate:a[navigate:x]]"), "]");
    assert_eq!(MovementCommandParser::strip_commands("Moving[move:1,0,-1]now"), "Moving now");
}

#[test]
fn path_cost_counts_step_lengths() {
    assert_eq!(path_cost(&vec![(0, 0, 0)]), 0);
    assert_eq!(path_cost(&vec![(0, 0, 0), (1, 0, 0), (2, 1, 0), (3, 2, 1)]), 1000 + 1414 + 1732);
}

#[test]
fn chat_steps_answer_small_talk_from_canned_lines() {
    let router = RequestRouter::new();
    match router.chat_step("Hello there", ChatEvent::RedisLookedUp(None)) {
        ChatAction::Reply { response, mark_cached, remember, store_for } => {
            assert_eq!(response.source, "rust_cache");
            assert_eq!(response.emotion, "joy");
            assert_eq!(response.animation, "wave");
            assert!(!response.response.is_empty());
            assert!(!mark_cached);
            assert!(remember);
            assert_eq!(store_for, Some(300));
        }
        _ => panic!("expected a canned reply"),
    }
}

#[test]
fn setup_plan_follows_the_answers() {
    let plan = SetupCommand::setup_plan(
        "rpg",
        &vec![0, 4, 18],
        1,
        "tavern".to_string(),
        "intro".to_string(),
        "acts".to_string(),
        "moves".to_string(),
    );
    assert_eq!(plan.genre, GameGenre::Rpg);
    assert_eq!(plan.enabled, vec![ActionCategory::Combat, ActionCategory::Social, ActionCategory::Quest]);
    assert_eq!(plan.navigation, Some((NavigationMode::Coordinate, "tavern".to_string())));
    assert_eq!(plan.introduction, "intro");
    let no_scene = SetupCommand::setup_plan("horror", &vec![], 2, String::new(), String::new(), String::new(), String::new());
    assert_eq!(no_scene.navigation, None);
    assert!(no_scene.enabled.is_empty());
}
