//! What the command-line tool makes of the words it is given: provider
//! kinds, game genres, action categories and navigation modes, and the
//! settings that a command's options add up to.

use vstd::prelude::*;
use crate::text::{lowercase, to_lowercase, same_text, join2, join3};

verus! {

/// The kinds of language-model providers.
#[derive(Debug, Clone, Copy, PartialEq, Eq, Structural)]
pub enum ProviderKind {
    OpenAI,
    Anthropic,
    Gemini,
    XAi,
    Perplexity,
    Venice,
    Together,
    Groq,
    Mistral,
    DeepSeek,
    Fireworks,
    OpenRouter,
    Ollama,
    LMStudio,
    Custom,
}

/// The provider kind that a lower-case name stands for, aliases included.
pub open spec fn provider_named(t: Seq<char>) -> Option<ProviderKind> {
    if t == "openai"@ {
        Some(ProviderKind::OpenAI)
    } else if t == "anthropic"@ {
        Some(ProviderKind::Anthropic)
    } else if t == "gemini"@ || t == "google"@ {
        Some(ProviderKind::Gemini)
    } else if t == "xai"@ || t == "grok"@ {
        Some(ProviderKind::XAi)
    } else if t == "perplexity"@ {
        Some(ProviderKind::Perplexity)
    } else if t == "venice"@ {
        Some(ProviderKind::Venice)
    } else if t == "together"@ {
        Some(ProviderKind::Together)
    } else if t == "groq"@ {
        Some(ProviderKind::Groq)
    } else if t == "mistral"@ {
        Some(ProviderKind::Mistral)
    } else if t == "deepseek"@ {
        Some(ProviderKind::DeepSeek)
    } else if t == "fireworks"@ {
        Some(ProviderKind::Fireworks)
    } else if t == "openrouter"@ {
        Some(ProviderKind::OpenRouter)
    } else if t == "ollama"@ {
        Some(ProviderKind::Ollama)
    } else if t == "lmstudio"@ || t == "lm-studio"@ {
        Some(ProviderKind::LMStudio)
    } else if t == "custom"@ {
        Some(ProviderKind::Custom)
    } else {
        None
    }
}

/// The message for a provider name that names no kind.
pub open spec fn unknown_provider_text(s: Seq<char>) -> Seq<char> {
    "Unknown provider '"@ + s + "'. Available: openai, anthropic, gemini, xai, perplexity, venice, together, groq, mistral, deepseek, fireworks, openrouter, ollama, lmstudio, custom"@
}

/// The provider kind a name stands for, whatever its case; an error naming
/// the known kinds for any other name.
pub fn parse_provider_type(s: &str) -> (r: Result<ProviderKind, String>)
    ensures
        match r {
            Ok(k) => provider_named(lowercase(s@)) == Some(k),
            Err(m) => provider_named(lowercase(s@)) is None && m@ == unknown_provider_text(s@),
        },
{
    let lower = to_lowercase(s);
    let t = lower.as_str();
    if same_text(t, "openai") {
        Ok(ProviderKind::OpenAI)
    } else if same_text(t, "anthropic") {
        Ok(ProviderKind::Anthropic)
    } else if same_text(t, "gemini") || same_text(t, "google") {
        Ok(ProviderKind::Gemini)
    } else if same_text(t, "xai") || same_text(t, "grok") {
        Ok(ProviderKind::XAi)
    } else if same_text(t, "perplexity") {
        Ok(ProviderKind::Perplexity)
    } else if same_text(t, "venice") {
        Ok(ProviderKind::Venice)
    } else if same_text(t, "together") {
        Ok(ProviderKind::Together)
    } else if same_text(t, "groq") {
        Ok(ProviderKind::Groq)
    } else if same_text(t, "mistral") {
        Ok(ProviderKind::Mistral)
    } else if same_text(t, "deepseek") {
        Ok(ProviderKind::DeepSeek)
    } else if same_text(t, "fireworks") {
        Ok(ProviderKind::Fireworks)
    } else if same_text(t, "openrouter") {
        Ok(ProviderKind::OpenRouter)
    } else if same_text(t, "ollama") {
        Ok(ProviderKind::Ollama)
    } else if same_text(t, "lmstudio") || same_text(t, "lm-studio") {
        Ok(ProviderKind::LMStudio)
    } else if same_text(t, "custom") {
        Ok(ProviderKind::Custom)
    } else {
        Err(join3(
            "Unknown provider '",
            s,
            "'. Available: openai, anthropic, gemini, xai, perplexity, venice, together, groq, mistral, deepseek, fireworks, openrouter, ollama, lmstudio, custom",
        ))
    }
}

/// How an NPC is told where to go.
#[derive(Debug, Clone, Copy, PartialEq, Eq, Structural)]
pub enum NavigationMode {
    Word,
    Coordinate,
    Hybrid,
    Free,
}

/// The navigation mode a lower-case name stands for.
pub open spec fn mode_named(t: Seq<char>) -> Option<NavigationMode> {
    if t == "word"@ {
        Some(NavigationMode::Word)
    } else if t == "coordinate"@ {
        Some(NavigationMode::Coordinate)
    } else if t == "hybrid"@ {
        Some(NavigationMode::Hybrid)
    } else if t == "free"@ {
        Some(NavigationMode::Free)
    } else {
        None
    }
}

/// The navigation mode a name stands for, whatever its case; an error
/// listing the modes for any other name.
pub fn parse_nav_mode(s: &str) -> (r: Result<NavigationMode, String>)
    ensures
        match r {
            Ok(m) => mode_named(lowercase(s@)) == Some(m),
            Err(m) => mode_named(lowercase(s@)) is None
                && m@ == "Invalid navigation mode '"@ + s@ + "'. Use: word, coordinate, hybrid, free"@,
        },
{
    let lower = to_lowercase(s);
    let t = lower.as_str();
    if same_text(t, "word") {
        Ok(NavigationMode::Word)
    } else if same_text(t, "coordinate") {
        Ok(NavigationMode::Coordinate)
    } else if same_text(t, "hybrid") {
        Ok(NavigationMode::Hybrid)
    } else if same_text(t, "free") {
        Ok(NavigationMode::Free)
    } else {
        Err(join3("Invalid navigation mode '", s, "'. Use: word, coordinate, hybrid, free"))
    }
}

/// The modes in the order the setup wizard offers them.
pub open spec fn mode_at(i: usize) -> NavigationMode {
    if i == 0 {
        NavigationMode::Word
    } else if i == 1 {
        NavigationMode::Coordinate
    } else if i == 3 {
        NavigationMode::Free
    } else {
        NavigationMode::Hybrid
    }
}

/// The mode chosen at position `i` of the wizard's list: word, coordinate,
/// hybrid, free; hybrid for any other position.
pub fn nav_mode_at(i: usize) -> (m: NavigationMode)
    ensures
        m == mode_at(i),
{
    if i == 0 {
        NavigationMode::Word
    } else if i == 1 {
        NavigationMode::Coordinate
    } else if i == 2 {
        NavigationMode::Hybrid
    } else if i == 3 {
        NavigationMode::Free
    } else {
        NavigationMode::Hybrid
    }
}

/// The genres of game an NPC can live in; any other name is kept as a
/// genre of its own.
#[derive(Debug, Clone, PartialEq, Eq)]
pub enum GameGenre {
    Rpg,
    Fighting,
    Magic,
    Adventure,
    Romance,
    Simulation,
    VisualNovel,
    Survival,
    Horror,
    Sandbox,
    Strategy,
    Sports,
    Puzzle,
    Platformer,
    Shooter,
    Stealth,
    Racing,
    Rhythm,
    Custom(String),
}

/// The listed genre that a lower-case name stands for.
pub open spec fn known_genre(t: Seq<char>) -> Option<GameGenre> {
    if t == "rpg"@ {
        Some(GameGenre::Rpg)
    } else if t == "fighting"@ {
        Some(GameGenre::Fighting)
    } else if t == "magic"@ {
        Some(GameGenre::Magic)
    } else if t == "adventure"@ {
        Some(GameGenre::Adventure)
    } else if t == "romance"@ {
        Some(GameGenre::Romance)
    } else if t == "simulation"@ {
        Some(GameGenre::Simulation)
    } else if t == "visual_novel"@ {
        Some(GameGenre::VisualNovel)
    } else if t == "survival"@ {
        Some(GameGenre::Survival)
    } else if t == "horror"@ {
        Some(GameGenre::Horror)
    } else if t == "sandbox"@ {
        Some(GameGenre::Sandbox)
    } else if t == "strategy"@ {
        Some(GameGenre::Strategy)
    } else if t == "sports"@ {
        Some(GameGenre::Sports)
    } else if t == "puzzle"@ {
        Some(GameGenre::Puzzle)
    } else if t == "platformer"@ {
        Some(GameGenre::Platformer)
    } else if t == "shooter"@ {
        Some(GameGenre::Shooter)
    } else if t == "stealth"@ {
        Some(GameGenre::Stealth)
    } else if t == "racing"@ {
        Some(GameGenre::Racing)
    } else if t == "rhythm"@ {
        Some(GameGenre::Rhythm)
    } else {
        None
    }
}

/// Whether `g` is what the name `s` stands for: the listed genre of its
/// lower-case form, or else a custom genre of that lower-case form.
pub open spec fn genre_read_from(g: GameGenre, s: Seq<char>) -> bool {
    match g {
        GameGenre::Custom(c) => known_genre(lowercase(s)) is None && c@ == lowercase(s),
        _ => known_genre(lowercase(s)) == Some(g),
    }
}

/// The genre a name stands for, whatever its case; a name that no listed
/// genre has becomes a custom genre of that name in lower case.
pub fn parse_genre(s: &str) -> (g: GameGenre)
    ensures
        genre_read_from(g, s@),
{
    let lower = to_lowercase(s);
    let t = lower.as_str();
    if same_text(t, "rpg") {
        GameGenre::Rpg
    } else if same_text(t, "fighting") {
        GameGenre::Fighting
    } else if same_text(t, "magic") {
        GameGenre::Magic
    } else if same_text(t, "adventure") {
        GameGenre::Adventure
    } else if same_text(t, "romance") {
        GameGenre::Romance
    } else if same_text(t, "simulation") {
        GameGenre::Simulation
    } else if same_text(t, "visual_novel") {
        GameGenre::VisualNovel
    } else if same_text(t, "survival") {
        GameGenre::Survival
    } else if same_text(t, "horror") {
        GameGenre::Horror
    } else if same_text(t, "sandbox") {
        GameGenre::Sandbox
    } else if same_text(t, "strategy") {
        GameGenre::Strategy
    } else if same_text(t, "sports") {
        GameGenre::Sports
    } else if same_text(t, "puzzle") {
        GameGenre::Puzzle
    } else if same_text(t, "platformer") {
        GameGenre::Platformer
    } else if same_text(t, "shooter") {
        GameGenre::Shooter
    } else if same_text(t, "stealth") {
        GameGenre::Stealth
    } else if same_text(t, "racing") {
        GameGenre::Racing
    } else if same_text(t, "rhythm") {
        GameGenre::Rhythm
    } else {
        GameGenre::Custom(lower)
    }
}

/// The kinds of action an NPC can be allowed.
#[derive(Debug, Clone, Copy, PartialEq, Eq, Structural)]
pub enum ActionCategory {
    Combat,
    Magic,
    Crafting,
    Trading,
    Social,
    Exploration,
    Stealth,
    Farming,
    Fishing,
    Mining,
    Building,
    Cooking,
    Healing,
    Music,
    Emotes,
    Navigation,
    Interaction,
    Dialogue,
    Quest,
}

/// The category that a name stands for, exactly as written.
pub open spec fn category_named(t: Seq<char>) -> Option<ActionCategory> {
    if t == "combat"@ {
        Some(ActionCategory::Combat)
    } else if t == "magic"@ {
        Some(ActionCategory::Magic)
    } else if t == "crafting"@ {
        Some(ActionCategory::Crafting)
    } else if t == "trading"@ {
        Some(ActionCategory::Trading)
    } else if t == "social"@ {
        Some(ActionCategory::Social)
    } else if t == "exploration"@ {
        Some(ActionCategory::Exploration)
    } else if t == "stealth"@ {
        Some(ActionCategory::Stealth)
    } else if t == "farming"@ {
        Some(ActionCategory::Farming)
    } else if t == "fishing"@ {
        Some(ActionCategory::Fishing)
    } else if t == "mining"@ {
        Some(ActionCategory::Mining)
    } else if t == "building"@ {
        Some(ActionCategory::Building)
    } else if t == "cooking"@ {
        Some(ActionCategory::Cooking)
    } else if t == "healing"@ {
        Some(ActionCategory::Healing)
    } else if t == "music"@ {
        Some(ActionCategory::Music)
    } else if t == "emotes"@ {
        Some(ActionCategory::Emotes)
    } else if t == "navigation"@ {
        Some(ActionCategory::Navigation)
    } else if t == "interaction"@ {
        Some(ActionCategory::Interaction)
    } else if t == "dialogue"@ {
        Some(ActionCategory::Dialogue)
    } else if t == "quest"@ {
        Some(ActionCategory::Quest)
    } else {
        None
    }
}

/// The category a name stands for; an error naming it otherwise.
pub fn parse_category(s: &str) -> (r: Result<ActionCategory, String>)
    ensures
        match r {
            Ok(c) => category_named(s@) == Some(c),
            Err(m) => category_named(s@) is None && m@ == "Unknown action category: "@ + s@,
        },
{
    let t = s;
    if same_text(t, "combat") {
        Ok(ActionCategory::Combat)
    } else if same_text(t, "magic") {
        Ok(ActionCategory::Magic)
    } else if same_text(t, "crafting") {
        Ok(ActionCategory::Crafting)
    } else if same_text(t, "trading") {
        Ok(ActionCategory::Trading)
    } else if same_text(t, "social") {
        Ok(ActionCategory::Social)
    } else if same_text(t, "exploration") {
        Ok(ActionCategory::Exploration)
    } else if same_text(t, "stealth") {
        Ok(ActionCategory::Stealth)
    } else if same_text(t, "farming") {
        Ok(ActionCategory::Farming)
    } else if same_text(t, "fishing") {
        Ok(ActionCategory::Fishing)
    } else if same_text(t, "mining") {
        Ok(ActionCategory::Mining)
    } else if same_text(t, "building") {
        Ok(ActionCategory::Building)
    } else if same_text(t, "cooking") {
        Ok(ActionCategory::Cooking)
    } else if same_text(t, "healing") {
        Ok(ActionCategory::Healing)
    } else if same_text(t, "music") {
        Ok(ActionCategory::Music)
    } else if same_text(t, "emotes") {
        Ok(ActionCategory::Emotes)
    } else if same_text(t, "navigation") {
        Ok(ActionCategory::Navigation)
    } else if same_text(t, "interaction") {
        Ok(ActionCategory::Interaction)
    } else if same_text(t, "dialogue") {
        Ok(ActionCategory::Dialogue)
    } else if same_text(t, "quest") {
        Ok(ActionCategory::Quest)
    } else {
        Err(join2("Unknown action category: ", s))
    }
}

/// Whether `cats` are the categories that `names` stand for, one for one.
pub open spec fn categories_of(names: Seq<Seq<char>>, cats: Seq<ActionCategory>) -> bool {
    &&& cats.len() == names.len()
    &&& forall|i: int| 0 <= i < names.len() ==> category_named(#[trigger] names[i]) == Some(cats[i])
}

/// Where in `names` the first name that is no category stands, if any.
pub open spec fn first_unknown(names: Seq<Seq<char>>) -> Option<int> {
    if exists|i: int| 0 <= i < names.len() && category_named(#[trigger] names[i]) is None {
        Some(choose|i: int| 0 <= i < names.len() && category_named(#[trigger] names[i]) is None
            && forall|j: int| 0 <= j < i ==> category_named(#[trigger] names[j]) is Some)
    } else {
        None
    }
}

/// The texts of a list of strings.
pub open spec fn texts(v: Seq<String>) -> Seq<Seq<char>> {
    v.map_values(|t: String| t@)
}

/// The categories that a list of names stands for, in order; the error of
/// the first name that stands for none.
pub fn parse_categories(names: &Vec<String>) -> (r: Result<Vec<ActionCategory>, String>)
    ensures
        match r {
            Ok(cats) => first_unknown(texts(names@)) is None && categories_of(texts(names@), cats@),
            Err(m) => first_unknown(texts(names@)) matches Some(i)
                && m@ == "Unknown action category: "@ + texts(names@)[i],
        },
{
    let ghost ns = texts(names@);
    let mut cats: Vec<ActionCategory> = Vec::new();
    let mut i: usize = 0;
    while i < names.len()
        invariant
            ns == texts(names@),
            i <= names.len(),
            categories_of(ns.take(i as int), cats@),
        decreases names.len() - i,
    {
        match parse_category(names[i].as_str()) {
            Ok(c) => {
                proof {
                    assert(ns[i as int] == names@[i as int]@);
                }
                cats.push(c);
                proof {
                    assert forall|j: int| 0 <= j < i + 1 implies category_named(#[trigger] ns.take(i + 1)[j]) == Some(cats@[j]) by {
                        if j < i {
                            assert(ns.take(i + 1)[j] == ns.take(i as int)[j]);
                        }
                    }
                }
            },
            Err(m) => {
                proof {
                    let k = i as int;
                    assert(ns[k] == names@[k]@);
                    assert forall|j: int| 0 <= j < k implies category_named(#[trigger] ns[j]) is Some by {
                        assert(ns.take(k)[j] == ns[j]);
                    }
                    assert(0 <= k < ns.len() && category_named(ns[k]) is None);
                    let c = choose|c: int| 0 <= c < ns.len() && category_named(#[trigger] ns[c]) is None
                        && forall|j: int| 0 <= j < c ==> category_named(#[trigger] ns[j]) is Some;
                    assert(c == k) by {
                        if c < k {
                            assert(category_named(ns[c]) is Some);
                        } else if c > k {
                            assert(category_named(ns[k]) is Some);
                        }
                    }
                }
                return Err(m);
            },
        }
        i = i + 1;
    }
    proof {
        assert(ns.take(i as int) =~= ns);
        assert forall|j: int| 0 <= j < ns.len() implies category_named(#[trigger] ns[j]) is Some by {
            assert(ns.take(i as int)[j] == ns[j]);
        }
    }
    Ok(cats)
}

/// The options of the command that sets the tool up.
pub struct InitCommand {
    pub url: Option<String>,
    pub key: Option<String>,
}

/// Where the API listens when no address is given.
pub open spec fn default_api_url() -> Seq<char> {
    "http://localhost:3001"@
}

impl InitCommand {
    /// The API address given, or the local default.
    pub fn api_url(&self) -> (u: String)
        ensures
            u@ == match self.url {
                Some(x) => x@,
                None => default_api_url(),
            },
    {
        match &self.url {
            Some(x) => x.clone(),
            None => "http://localhost:3001".to_string(),
        }
    }
}

/// An API key is refused when it is empty.
pub fn check_api_key(key: &str) -> (r: Result<(), String>)
    ensures
        r is Ok <==> key@.len() > 0,
        r matches Err(m) ==> m@ == "API key cannot be empty"@,
{
    if key.is_empty() {
        Err("API key cannot be empty".to_string())
    } else {
        Ok(())
    }
}

/// The scene commands: register a scene's positions, or list them.
pub enum SceneCommands {
    Register { scene_id: String, world: String, file: Option<String>, positions: Option<String> },
    List { scene_id: String },
}

/// Where a scene's positions are read from.
#[derive(Debug, Clone, PartialEq, Eq)]
pub enum PositionsSource {
    /// A file at this path.
    File(String),
    /// This JSON text itself.
    Inline(String),
}

/// A file given wins over inline text; with neither, an error says how to
/// give them.
pub fn positions_source(file: Option<String>, positions: Option<String>) -> (r: Result<PositionsSource, String>)
    ensures
        match (file, positions) {
            (Some(f), _) => r == Ok::<PositionsSource, String>(PositionsSource::File(f)),
            (None, Some(p)) => r == Ok::<PositionsSource, String>(PositionsSource::Inline(p)),
            (None, None) => r matches Err(m) && m@ == "Provide --file <path> or --positions <json>"@,
        },
{
    match file {
        Some(f) => Ok(PositionsSource::File(f)),
        None => match positions {
            Some(p) => Ok(PositionsSource::Inline(p)),
            None => Err("Provide --file <path> or --positions <json>".to_string()),
        },
    }
}

/// The provider commands.
pub enum LlmCommands {
    Presets,
    List,
    Status { name: String },
    Add { provider: String, key: String, model: Option<String>, base_url: Option<String> },
    Remove { name: String },
    Metrics { global: bool, agent: Option<String>, user: Option<String>, top: bool, recent: bool },
}

/// Which request metrics to show.
#[derive(Debug, Clone, PartialEq, Eq)]
pub enum MetricsView {
    Global,
    Agent(String),
    User(String),
    TopAgents,
    Recent,
}

/// The metrics the options ask for, the first that applies of: global,
/// an agent's, a user's, the busiest agents, the latest requests; global
/// when none is asked for.
pub fn metrics_view(global: bool, agent: Option<String>, user: Option<String>, top: bool, recent: bool) -> (v: MetricsView)
    ensures
        v == if global {
            MetricsView::Global
        } else if agent is Some {
            MetricsView::Agent(agent->0)
        } else if user is Some {
            MetricsView::User(user->0)
        } else if top {
            MetricsView::TopAgents
        } else if recent {
            MetricsView::Recent
        } else {
            MetricsView::Global
        },
{
    if global {
        MetricsView::Global
    } else if let Some(a) = agent {
        MetricsView::Agent(a)
    } else if let Some(u) = user {
        MetricsView::User(u)
    } else if top {
        MetricsView::TopAgents
    } else if recent {
        MetricsView::Recent
    } else {
        MetricsView::Global
    }
}

/// The action-system commands.
pub enum ActionCommands {
    Catalog,
    Genre { genre: String },
    Get { id: String },
    SetConfig {
        id: String,
        genre: String,
        actions: Option<Vec<String>>,
        introduction: Option<String>,
        action_explain: Option<String>,
        movement_explain: Option<String>,
    },
    Context { id: String },
}

/// An NPC's action settings as the `set` command makes them.
pub struct ActionSettings {
    pub genre: GameGenre,
    pub enabled: Vec<ActionCategory>,
    pub introduction: String,
    pub action_explain: String,
    pub movement_explain: String,
}

/// A text given, or the default.
pub open spec fn or_default(t: Option<String>, d: Seq<char>) -> Seq<char> {
    match t {
        Some(x) => x@,
        None => d,
    }
}

/// The settings the `set` options add up to: the genre read from its
/// name, the categories the actions name (none when none are given), and
/// each text given or its default; the error of the first action that
/// names no category.
pub fn action_settings(
    genre: &str,
    actions: Option<Vec<String>>,
    introduction: Option<String>,
    action_explain: Option<String>,
    movement_explain: Option<String>,
) -> (r: Result<ActionSettings, String>)
    ensures
        ({
            let names = match actions {
                Some(a) => texts(a@),
                None => Seq::empty(),
            };
            match r {
                Ok(st) => {
                    &&& first_unknown(names) is None
                    &&& genre_read_from(st.genre, genre@)
                    &&& categories_of(names, st.enabled@)
                    &&& st.introduction@ == or_default(introduction, "An AI-powered NPC."@)
                    &&& st.action_explain@ == or_default(action_explain, "Use available actions to interact."@)
                    &&& st.movement_explain@ == or_default(movement_explain, "Move freely within bounds."@)
                },
                Err(m) => first_unknown(names) matches Some(i) && m@ == "Unknown action category: "@ + names[i],
            }
        }),
{
    let game_genre = parse_genre(genre);
    let names: Vec<String> = match actions {
        Some(a) => a,
        None => Vec::new(),
    };
    proof {
        assert(texts(Seq::<String>::empty()) =~= Seq::<Seq<char>>::empty());
    }
    let enabled = match parse_categories(&names) {
        Ok(c) => c,
        Err(m) => {
            return Err(m);
        },
    };
    let introduction = match introduction {
        Some(x) => x,
        None => "An AI-powered NPC.".to_string(),
    };
    let action_explain = match action_explain {
        Some(x) => x,
        None => "Use available actions to interact.".to_string(),
    };
    let movement_explain = match movement_explain {
        Some(x) => x,
        None => "Move freely within bounds.".to_string(),
    };
    Ok(ActionSettings { genre: game_genre, enabled, introduction, action_explain, movement_explain })
}

/// The options of the setup wizard.
pub struct SetupCommand {
    pub id: String,
}

/// The wizard's names of the navigation modes, in the order it offers them.
pub open spec fn mode_label(i: int) -> Seq<char> {
    if i == 0 {
        "word"@
    } else if i == 1 {
        "coordinate"@
    } else if i == 2 {
        "hybrid"@
    } else {
        "free"@
    }
}

impl SetupCommand {
    /// The introduction the wizard offers for a genre.
    pub fn default_introduction(genre: &str) -> (t: String)
        ensures
            t@ == "You are an NPC in a "@ + genre@ + " game world."@,
    {
        join3("You are an NPC in a ", genre, " game world.")
    }

    /// The movement explanation the wizard offers for the mode at `i`.
    pub fn default_movement_explain(i: usize) -> (t: String)
        requires
            i < 4,
        ensures
            t@ == "You navigate using "@ + mode_label(i as int) + " mode."@,
    {
        let label = if i == 0 {
            "word"
        } else if i == 1 {
            "coordinate"
        } else if i == 2 {
            "hybrid"
        } else {
            "free"
        };
        join3("You navigate using ", label, " mode.")
    }
}

/// Number of action categories.
pub const CATEGORY_COUNT: usize = 19;

/// The categories in the order they are listed.
pub open spec fn category_at(i: usize) -> ActionCategory {
    if i == 0 {
        ActionCategory::Combat
    } else if i == 1 {
        ActionCategory::Magic
    } else if i == 2 {
        ActionCategory::Crafting
    } else if i == 3 {
        ActionCategory::Trading
    } else if i == 4 {
        ActionCategory::Social
    } else if i == 5 {
        ActionCategory::Exploration
    } else if i == 6 {
        ActionCategory::Stealth
    } else if i == 7 {
        ActionCategory::Farming
    } else if i == 8 {
        ActionCategory::Fishing
    } else if i == 9 {
        ActionCategory::Mining
    } else if i == 10 {
        ActionCategory::Building
    } else if i == 11 {
        ActionCategory::Cooking
    } else if i == 12 {
        ActionCategory::Healing
    } else if i == 13 {
        ActionCategory::Music
    } else if i == 14 {
        ActionCategory::Emotes
    } else if i == 15 {
        ActionCategory::Navigation
    } else if i == 16 {
        ActionCategory::Interaction
    } else if i == 17 {
        ActionCategory::Dialogue
    } else {
        ActionCategory::Quest
    }
}

/// The category at position `i` of the list (see `category_at`).
pub fn category_at_index(i: usize) -> (c: ActionCategory)
    ensures
        c == category_at(i),
{
    if i == 0 {
        ActionCategory::Combat
    } else if i == 1 {
        ActionCategory::Magic
    } else if i == 2 {
        ActionCategory::Crafting
    } else if i == 3 {
        ActionCategory::Trading
    } else if i == 4 {
        ActionCategory::Social
    } else if i == 5 {
        ActionCategory::Exploration
    } else if i == 6 {
        ActionCategory::Stealth
    } else if i == 7 {
        ActionCategory::Farming
    } else if i == 8 {
        ActionCategory::Fishing
    } else if i == 9 {
        ActionCategory::Mining
    } else if i == 10 {
        ActionCategory::Building
    } else if i == 11 {
        ActionCategory::Cooking
    } else if i == 12 {
        ActionCategory::Healing
    } else if i == 13 {
        ActionCategory::Music
    } else if i == 14 {
        ActionCategory::Emotes
    } else if i == 15 {
        ActionCategory::Navigation
    } else if i == 16 {
        ActionCategory::Interaction
    } else if i == 17 {
        ActionCategory::Dialogue
    } else {
        ActionCategory::Quest
    }
}

/// What the setup wizard configures: the genre, the categories chosen by
/// their positions in the list, the navigation mode and scene when a scene
/// is given, and the three texts.
pub struct SetupPlan {
    pub genre: GameGenre,
    pub enabled: Vec<ActionCategory>,
    pub navigation: Option<(NavigationMode, String)>,
    pub introduction: String,
    pub action_explain: String,
    pub movement_explain: String,
}

impl SetupCommand {
    /// The settings the wizard's answers add up to: the genre read from
    /// its name, the categories at the chosen positions, in order, and the
    /// mode at position `nav_index` for the scene `scene_id`, unless no
    /// scene was given.
    pub fn setup_plan(
        genre: &str,
        selected: &Vec<usize>,
        nav_index: usize,
        scene_id: String,
        introduction: String,
        action_explain: String,
        movement_explain: String,
    ) -> (p: SetupPlan)
        requires
            forall|k: int| 0 <= k < selected@.len() ==> selected@[k] < CATEGORY_COUNT,
        ensures
            genre_read_from(p.genre, genre@),
            p.enabled@ == selected@.map_values(|i: usize| category_at(i)),
            match p.navigation {
                Some((m, sc)) => scene_id@.len() > 0 && m == mode_at(nav_index) && sc == scene_id,
                None => scene_id@.len() == 0,
            },
            p.introduction == introduction,
            p.action_explain == action_explain,
            p.movement_explain == movement_explain,
    {
        let g = parse_genre(genre);
        let mut enabled: Vec<ActionCategory> = Vec::new();
        let mut k: usize = 0;
        while k < selected.len()
            invariant
                k <= selected@.len(),
                enabled@ == selected@.take(k as int).map_values(|i: usize| category_at(i)),
            decreases selected.len() - k,
        {
            enabled.push(category_at_index(selected[k]));
            proof {
                assert(selected@.take(k + 1) =~= selected@.take(k as int).push(selected@[k as int]));
            }
            k += 1;
            assert(enabled@ =~= selected@.take(k as int).map_values(|i: usize| category_at(i)));
        }
        assert(selected@.take(selected@.len() as int) =~= selected@);
        let navigation = if scene_id.as_str().is_empty() {
            None
        } else {
            Some((nav_mode_at(nav_index), scene_id))
        };
        SetupPlan { genre: g, enabled, navigation, introduction, action_explain, movement_explain }
    }
}

} // verus!
