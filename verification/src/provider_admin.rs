//! What an administrator's request to add a model provider comes to: the
//! checks it must pass, in the order they are made, and the name, address
//! and model the provider is registered with.

use vstd::prelude::*;
use vstd::string::StringSliceAdditionalSpecFns;
use crate::api_checks::{
    base_url_verdict, check_max_tokens, check_timeout, custom_provider_name, header_key_verdict,
    sanitize_header_key, url_host, url_scheme, validate_base_url, ApiError,
};
use crate::cli_input::ProviderKind;
use crate::text::join3;

verus! {

/// The name of a provider kind in lower case, as the registry names its
/// providers.
pub open spec fn kind_label(k: ProviderKind) -> Seq<char> {
    match k {
        ProviderKind::OpenAI => "openai"@,
        ProviderKind::Anthropic => "anthropic"@,
        ProviderKind::Gemini => "gemini"@,
        ProviderKind::XAi => "xai"@,
        ProviderKind::Perplexity => "perplexity"@,
        ProviderKind::Venice => "venice"@,
        ProviderKind::Together => "together"@,
        ProviderKind::Groq => "groq"@,
        ProviderKind::Mistral => "mistral"@,
        ProviderKind::DeepSeek => "deepseek"@,
        ProviderKind::Fireworks => "fireworks"@,
        ProviderKind::OpenRouter => "openrouter"@,
        ProviderKind::Ollama => "ollama"@,
        ProviderKind::LMStudio => "lmstudio"@,
        ProviderKind::Custom => "custom"@,
    }
}

/// The name of a provider kind in lower case (see `kind_label`).
pub fn provider_label(k: ProviderKind) -> (s: &'static str)
    ensures
        s@ == kind_label(k),
{
    match k {
        ProviderKind::OpenAI => "openai",
        ProviderKind::Anthropic => "anthropic",
        ProviderKind::Gemini => "gemini",
        ProviderKind::XAi => "xai",
        ProviderKind::Perplexity => "perplexity",
        ProviderKind::Venice => "venice",
        ProviderKind::Together => "together",
        ProviderKind::Groq => "groq",
        ProviderKind::Mistral => "mistral",
        ProviderKind::DeepSeek => "deepseek",
        ProviderKind::Fireworks => "fireworks",
        ProviderKind::OpenRouter => "openrouter",
        ProviderKind::Ollama => "ollama",
        ProviderKind::LMStudio => "lmstudio",
        ProviderKind::Custom => "custom",
    }
}

/// The kinds that run on the operator's own machines, and so may use
/// local addresses.
pub open spec fn allows_local(k: ProviderKind) -> bool {
    k == ProviderKind::Ollama || k == ProviderKind::LMStudio || k == ProviderKind::Custom
}

/// The first refusal among header names, each with its length in bytes.
pub open spec fn headers_verdict(keys: Seq<(Seq<char>, nat)>) -> Result<(), Seq<char>>
    decreases keys.len(),
{
    if keys.len() == 0 {
        Ok(())
    } else {
        match header_key_verdict(keys[0].0, keys[0].1) {
            Err(m) => Err(m),
            Ok(()) => headers_verdict(keys.drop_first()),
        }
    }
}

/// The names and byte lengths of header names.
pub open spec fn header_views(keys: Seq<&str>) -> Seq<(Seq<char>, nat)> {
    keys.map_values(|k: &str| (k@, k.spec_bytes().len()))
}

/// The first refusal of a registration, the checks made in this order: an
/// address, given or the kind's default; the address itself; the answer
/// length; the temperature; the timeout; the header names; for a custom
/// provider, a model name.
pub open spec fn registration_verdict(
    kind: ProviderKind,
    url: Option<Seq<char>>,
    max_tokens: u32,
    temperature_in_range: bool,
    timeout_ms: u64,
    headers: Seq<(Seq<char>, nat)>,
    model: Option<Seq<char>>,
) -> Result<(), Seq<char>> {
    match url {
        None => Err("base_url is required for custom providers"@),
        Some(u) => match base_url_verdict(url_scheme(u), url_host(u), allows_local(kind)) {
            Err(m) => Err(m),
            Ok(()) => if !(1 <= max_tokens <= 32768) {
                Err("max_tokens must be between 1 and 32768"@)
            } else if !temperature_in_range {
                Err("temperature must be between 0.0 and 2.0"@)
            } else if !(1000 <= timeout_ms <= 120000) {
                Err("timeout_ms must be between 1000 and 120000"@)
            } else {
                match headers_verdict(headers) {
                    Err(m) => Err(m),
                    Ok(()) => if kind == ProviderKind::Custom && !(model matches Some(m) && m.len() > 0) {
                        Err("model name is required for custom providers"@)
                    } else {
                        Ok(())
                    },
                }
            },
        },
    }
}

/// A provider as it is registered.
pub struct Registration {
    pub name: String,
    pub base_url: String,
    pub model: String,
}

/// The first refusal among header names (see `headers_verdict`).
fn check_header_keys(keys: &Vec<&str>) -> (r: Result<(), ApiError>)
    ensures
        match headers_verdict(header_views(keys@)) {
            Ok(()) => r is Ok,
            Err(m) => r matches Err(ApiError::BadRequest(t)) && t@ == m,
        },
{
    let ghost hv = header_views(keys@);
    assert(hv.skip(0) =~= hv);
    let mut i: usize = 0;
    while i < keys.len()
        invariant
            i <= keys@.len(),
            hv == header_views(keys@),
            headers_verdict(hv) == headers_verdict(hv.skip(i as int)),
        decreases keys.len() - i,
    {
        proof {
            assert(hv.skip(i as int)[0] == (keys@[i as int]@, keys@[i as int].spec_bytes().len()));
            assert(hv.skip(i as int).drop_first() =~= hv.skip(i + 1));
        }
        match sanitize_header_key(keys[i]) {
            Ok(()) => {},
            Err(e) => {
                return Err(e);
            },
        }
        i = i + 1;
    }
    proof {
        assert(hv.skip(i as int).len() == 0);
    }
    Ok(())
}

/// What a request to add a provider comes to: refused with the first check
/// that fails (see `registration_verdict`), else registered under `custom_`
/// and the model's name for a custom provider, under the kind's name for a
/// kind with a default address, else as `custom`; at the address given or
/// the default one; serving the model given, or by default `gpt-4o-mini`
/// for a kind with a default address and `unknown` otherwise.
pub fn registration(
    kind: ProviderKind,
    base_url: Option<String>,
    default_base_url: Option<&str>,
    max_tokens: u32,
    temperature_in_range: bool,
    timeout_ms: u64,
    header_keys: &Vec<&str>,
    model: Option<String>,
) -> (r: Result<Registration, ApiError>)
    ensures
        ({
            let url = match base_url {
                Some(u) => Some(u@),
                None => match default_base_url { Some(d) => Some(d@), None => None },
            };
            let m = match model { Some(x) => Some(x@), None => None };
            match registration_verdict(kind, url, max_tokens, temperature_in_range, timeout_ms, header_views(header_keys@), m) {
                Err(msg) => r matches Err(ApiError::BadRequest(t)) && t@ == msg,
                Ok(()) => r matches Ok(reg) && {
                    &&& Some(reg.base_url@) == url
                    &&& reg.name@ == if kind == ProviderKind::Custom {
                        "custom_"@ + m->0
                    } else if default_base_url is Some {
                        kind_label(kind)
                    } else {
                        "custom"@
                    }
                    &&& reg.model@ == match m {
                        Some(x) => x,
                        None => if default_base_url is Some { "gpt-4o-mini"@ } else { "unknown"@ },
                    }
                },
            }
        }),
{
    let url = match base_url {
        Some(u) => u,
        None => match default_base_url {
            Some(d) => d.to_string(),
            None => {
                return Err(ApiError::BadRequest("base_url is required for custom providers".to_string()));
            },
        },
    };
    let allow_local = match kind {
        ProviderKind::Ollama | ProviderKind::LMStudio | ProviderKind::Custom => true,
        _ => false,
    };
    match validate_base_url(url.as_str(), allow_local) {
        Ok(()) => {},
        Err(e) => {
            return Err(e);
        },
    }
    match check_max_tokens(max_tokens) {
        Ok(()) => {},
        Err(e) => {
            return Err(e);
        },
    }
    if !temperature_in_range {
        return Err(ApiError::BadRequest("temperature must be between 0.0 and 2.0".to_string()));
    }
    match check_timeout(timeout_ms) {
        Ok(()) => {},
        Err(e) => {
            return Err(e);
        },
    }
    match check_header_keys(header_keys) {
        Ok(()) => {},
        Err(e) => {
            return Err(e);
        },
    }
    let name = if kind == ProviderKind::Custom {
        let given = match &model {
            Some(x) => Some(x.as_str()),
            None => None,
        };
        match custom_provider_name(given) {
            Ok(n) => n,
            Err(e) => {
                return Err(e);
            },
        }
    } else if default_base_url.is_some() {
        provider_label(kind).to_string()
    } else {
        "custom".to_string()
    };
    let model_name = match model {
        Some(x) => x,
        None => if default_base_url.is_some() { "gpt-4o-mini".to_string() } else { "unknown".to_string() },
    };
    Ok(Registration { name, base_url: url, model: model_name })
}

/// The error for a provider name that no provider has.
pub fn missing_provider(name: &str) -> (e: ApiError)
    ensures
        e matches ApiError::NotFound(m) && m@ == "Provider '"@ + name@ + "' not found"@,
{
    ApiError::NotFound(join3("Provider '", name, "' not found"))
}

} // verus!
