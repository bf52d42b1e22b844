//! Which providers the environment configures: for each known provider,
//! an API key turns it on, and its other settings override the defaults.

use vstd::prelude::*;
use crate::cli_input::ProviderKind;
use crate::llm_flow::{decimal_value, parse_u64};
use crate::text::{lowercase, to_lowercase};

verus! {

/// How many providers the environment can configure.
pub const ENV_PRESET_COUNT: usize = 13;

/// The providers the environment can configure, in the order they are
/// taken: the prefix of their variables, their kind, their default address
/// and their default model (empty for a preset that has none, whose model
/// variable must then be set).
pub open spec fn preset(i: int) -> (Seq<char>, ProviderKind, Seq<char>, Seq<char>) {
    if i == 0 {
        ("OPENAI"@, ProviderKind::OpenAI, "https://api.openai.com/v1"@, "gpt-4o-mini"@)
    } else if i == 1 {
        ("ANTHROPIC"@, ProviderKind::Anthropic, "https://api.anthropic.com/v1"@, Seq::empty())
    } else if i == 2 {
        ("GEMINI"@, ProviderKind::Gemini, "https://generativelanguage.googleapis.com/v1beta"@, "gemini-2.0-flash"@)
    } else if i == 3 {
        ("XAI"@, ProviderKind::XAi, "https://api.x.ai/v1"@, "grok-3-mini-fast"@)
    } else if i == 4 {
        ("PERPLEXITY"@, ProviderKind::Perplexity, "https://api.perplexity.ai"@, "sonar"@)
    } else if i == 5 {
        ("VENICE"@, ProviderKind::Venice, "https://api.venice.ai/api/v1"@, "venice-uncensored-role-play"@)
    } else if i == 6 {
        ("TOGETHER"@, ProviderKind::Together, "https://api.together.xyz/v1"@, "meta-llama/Llama-3.3-70B-Instruct-Turbo"@)
    } else if i == 7 {
        ("GROQ"@, ProviderKind::Groq, "https://api.groq.com/openai/v1"@, "llama-3.3-70b-versatile"@)
    } else if i == 8 {
        ("MISTRAL"@, ProviderKind::Mistral, "https://api.mistral.ai/v1"@, "mistral-small-latest"@)
    } else if i == 9 {
        ("DEEPSEEK"@, ProviderKind::DeepSeek, "https://api.deepseek.com/v1"@, "deepseek-chat"@)
    } else if i == 10 {
        ("FIREWORKS"@, ProviderKind::Fireworks, "https://api.fireworks.ai/inference/v1"@, "accounts/fireworks/models/llama-v3-8b-instruct"@)
    } else if i == 11 {
        ("OPENROUTER"@, ProviderKind::OpenRouter, "https://openrouter.ai/api/v1"@, "meta-llama/llama-3.3-70b-instruct"@)
    } else {
        ("OLLAMA"@, ProviderKind::Ollama, "http://localhost:11434/v1"@, "llama3"@)
    }
}

/// The provider at `i` of the list (see `preset`).
pub fn env_preset(i: usize) -> (r: (&'static str, ProviderKind, &'static str, &'static str))
    requires
        i < ENV_PRESET_COUNT,
    ensures
        (r.0@, r.1, r.2@, r.3@) == preset(i as int),
{
    if i == 0 {
        ("OPENAI", ProviderKind::OpenAI, "https://api.openai.com/v1", "gpt-4o-mini")
    } else if i == 1 {
        proof {
            reveal_strlit("");
        }
        ("ANTHROPIC", ProviderKind::Anthropic, "https://api.anthropic.com/v1", "")
    } else if i == 2 {
        ("GEMINI", ProviderKind::Gemini, "https://generativelanguage.googleapis.com/v1beta", "gemini-2.0-flash")
    } else if i == 3 {
        ("XAI", ProviderKind::XAi, "https://api.x.ai/v1", "grok-3-mini-fast")
    } else if i == 4 {
        ("PERPLEXITY", ProviderKind::Perplexity, "https://api.perplexity.ai", "sonar")
    } else if i == 5 {
        ("VENICE", ProviderKind::Venice, "https://api.venice.ai/api/v1", "venice-uncensored-role-play")
    } else if i == 6 {
        ("TOGETHER", ProviderKind::Together, "https://api.together.xyz/v1", "meta-llama/Llama-3.3-70B-Instruct-Turbo")
    } else if i == 7 {
        ("GROQ", ProviderKind::Groq, "https://api.groq.com/openai/v1", "llama-3.3-70b-versatile")
    } else if i == 8 {
        ("MISTRAL", ProviderKind::Mistral, "https://api.mistral.ai/v1", "mistral-small-latest")
    } else if i == 9 {
        ("DEEPSEEK", ProviderKind::DeepSeek, "https://api.deepseek.com/v1", "deepseek-chat")
    } else if i == 10 {
        ("FIREWORKS", ProviderKind::Fireworks, "https://api.fireworks.ai/inference/v1", "accounts/fireworks/models/llama-v3-8b-instruct")
    } else if i == 11 {
        ("OPENROUTER", ProviderKind::OpenRouter, "https://openrouter.ai/api/v1", "meta-llama/llama-3.3-70b-instruct")
    } else {
        ("OLLAMA", ProviderKind::Ollama, "http://localhost:11434/v1", "llama3")
    }
}

/// What the environment holds for one provider: the values of its
/// `_API_KEY`, `_BASE_URL`, `_MODEL`, `_MAX_TOKENS`, `_TIMEOUT_MS`,
/// `_PRIORITY` and `_SYSTEM_PROMPT` variables.
pub struct EnvValues {
    pub api_key: Option<String>,
    pub base_url: Option<String>,
    pub model: Option<String>,
    pub max_tokens: Option<String>,
    pub timeout_ms: Option<String>,
    pub priority: Option<String>,
    pub system_prompt: Option<String>,
}

/// A provider the environment configures.
pub struct EnvProvider {
    /// Its place in the list of presets.
    pub preset: usize,
    pub name: String,
    pub kind: ProviderKind,
    pub base_url: String,
    pub api_key: String,
    pub model: String,
    pub max_tokens: u32,
    pub timeout_ms: u64,
    pub priority: u32,
    pub system_prompt: Option<String>,
}

/// The plain values of a configured provider.
pub type EnvProviderView = (usize, Seq<char>, ProviderKind, Seq<char>, Seq<char>, Seq<char>, u32, u64, u32, Option<Seq<char>>);

/// The plain values of `p`.
pub open spec fn env_provider_view(p: EnvProvider) -> EnvProviderView {
    (p.preset, p.name@, p.kind, p.base_url@, p.api_key@, p.model@, p.max_tokens, p.timeout_ms, p.priority,
        match p.system_prompt { Some(s) => Some(s@), None => None })
}

/// A text given, or the default.
pub open spec fn text_or(t: Option<String>, d: Seq<char>) -> Seq<char> {
    match t {
        Some(x) => x@,
        None => d,
    }
}

/// A `u32` read from a text as `str::parse` reads it, or the default when
/// there is no text or it is no such number.
pub open spec fn u32_or(t: Option<String>, d: u32) -> u32 {
    match t {
        Some(x) => match decimal_value(x@) {
            Some(v) => if v <= u32::MAX { v as u32 } else { d },
            None => d,
        },
        None => d,
    }
}

/// A `u64` read from a text as `str::parse` reads it, or the default.
pub open spec fn u64_or(t: Option<String>, d: u64) -> u64 {
    match t {
        Some(x) => match decimal_value(x@) {
            Some(v) => v as u64,
            None => d,
        },
        None => d,
    }
}

/// Whether the values configure preset `i`: a non-empty key, and a model
/// where the preset has no default one.
pub open spec fn configures(i: int, v: EnvValues) -> bool {
    &&& v.api_key matches Some(k) && k@.len() > 0
    &&& (preset(i).3.len() > 0 || v.model is Some)
}

/// The provider that preset `i` becomes with the values `v`, when it is
/// the `count`-th to be configured: none unless the values configure it;
/// else named by its prefix in lower case, with 150 tokens, 30 000 ms and
/// priority `count` unless the environment says otherwise.
pub open spec fn env_entry(i: int, v: EnvValues, count: nat) -> Option<EnvProviderView> {
    match v.api_key {
        Some(k) => if !configures(i, v) {
            None
        } else {
            let (prefix, kind, url, model) = preset(i);
            Some((
                i as usize,
                lowercase(prefix),
                kind,
                text_or(v.base_url, url),
                k@,
                text_or(v.model, model),
                u32_or(v.max_tokens, 150),
                u64_or(v.timeout_ms, 30000),
                u32_or(v.priority, count as u32),
                match v.system_prompt { Some(s) => Some(s@), None => None },
            ))
        },
        None => None,
    }
}

/// The providers that the values for the first presets configure, in order.
pub open spec fn env_list(vals: Seq<EnvValues>) -> Seq<EnvProviderView>
    decreases vals.len(),
{
    if vals.len() == 0 {
        Seq::empty()
    } else {
        let before = env_list(vals.drop_last());
        match env_entry(vals.len() - 1, vals.last(), before.len()) {
            Some(e) => before.push(e),
            None => before,
        }
    }
}

/// A number read from an optional text as a `u32`, or the default.
fn read_u32(t: &Option<String>, d: u32) -> (r: u32)
    ensures
        r == u32_or(*t, d),
{
    match t {
        Some(x) => match parse_u64(x.as_str()) {
            Some(v) => if v <= 4294967295u64 { v as u32 } else { d },
            None => d,
        },
        None => d,
    }
}

/// A number read from an optional text as a `u64`, or the default.
fn read_u64(t: &Option<String>, d: u64) -> (r: u64)
    ensures
        r == u64_or(*t, d),
{
    match t {
        Some(x) => match parse_u64(x.as_str()) {
            Some(v) => v,
            None => d,
        },
        None => d,
    }
}

/// The provider that preset `i` becomes (see `env_entry`).
pub fn provider_from_env(i: usize, v: &EnvValues, count: u32) -> (r: Option<EnvProvider>)
    requires
        i < ENV_PRESET_COUNT,
    ensures
        match r {
            Some(p) => env_entry(i as int, *v, count as nat) == Some(env_provider_view(p)),
            None => env_entry(i as int, *v, count as nat) is None,
        },
{
    let key = match &v.api_key {
        Some(k) => {
            if k.as_str().is_empty() {
                return None;
            }
            k.clone()
        },
        None => {
            return None;
        },
    };
    let (prefix, kind, url, model) = env_preset(i);
    if model.is_empty() && v.model.is_none() {
        return None;
    }
    let max_tokens = read_u32(&v.max_tokens, 150);
    let timeout_ms = read_u64(&v.timeout_ms, 30000);
    let priority = read_u32(&v.priority, count);
    let base_url = match &v.base_url {
        Some(b) => b.clone(),
        None => url.to_string(),
    };
    let model_name = match &v.model {
        Some(m) => m.clone(),
        None => model.to_string(),
    };
    let system_prompt = match &v.system_prompt {
        Some(t) => Some(t.clone()),
        None => None,
    };
    Some(EnvProvider {
        preset: i,
        name: to_lowercase(prefix),
        kind,
        base_url,
        api_key: key,
        model: model_name,
        max_tokens,
        timeout_ms,
        priority,
        system_prompt,
    })
}

/// The plain values of each provider in `ps`.
pub open spec fn env_views(ps: Seq<EnvProvider>) -> Seq<EnvProviderView> {
    ps.map_values(|p: EnvProvider| env_provider_view(p))
}

/// The providers that the values for the first presets configure, in the
/// order of the presets, each with the priority of its place unless the
/// environment gives one (see `env_list`).
pub fn providers_from_env(values: &Vec<EnvValues>) -> (out: Vec<EnvProvider>)
    requires
        values.len() <= ENV_PRESET_COUNT,
    ensures
        env_views(out@) == env_list(values@),
{
    let mut out: Vec<EnvProvider> = Vec::new();
    let mut i: usize = 0;
    while i < values.len()
        invariant
            values.len() <= ENV_PRESET_COUNT,
            i <= values.len(),
            env_views(out@) == env_list(values@.take(i as int)),
            out.len() <= i,
        decreases values.len() - i,
    {
        let ghost before = out@;
        proof {
            assert(values@.take(i + 1).drop_last() =~= values@.take(i as int));
            assert(env_list(values@.take(i as int)).len() == out.len()) by {
                assert(env_views(out@).len() == out@.len());
            }
        }
        let count = out.len() as u32;
        match provider_from_env(i, &values[i], count) {
            Some(p) => {
                out.push(p);
                proof {
                    assert(env_views(out@) =~= env_views(before).push(env_provider_view(p)));
                }
            },
            None => {},
        }
        i = i + 1;
    }
    proof {
        assert(values@.take(i as int) =~= values@);
    }
    out
}

} // verus!
