//! Errors of the HTTP API and the checks made on administrative requests:
//! who may manage providers, which base URLs a provider may use, and which
//! header names and limits a provider configuration may carry.

use vstd::prelude::*;
use vstd::string::StringSliceAdditionalSpecFns;
use crate::text::{char_is_alphanumeric, unicode_alphanumeric, split_trimmed, trimmed_fields, same_text,
    join2, chars_of, seq_starts_with, begins_with};

verus! {

/// An error of the HTTP API.
#[derive(Debug, Clone, PartialEq, Eq)]
pub enum ApiError {
    /// A database failure, with its description.
    DatabaseError(String),
    /// A cache failure, with its description.
    CacheError(String),
    Unauthorized,
    NotFound(String),
    BadRequest(String),
    RateLimitExceeded,
    InternalError(String),
}

/// The text of an error, as shown in logs.
pub open spec fn error_text(e: ApiError) -> Seq<char> {
    match e {
        ApiError::Unauthorized => "Authentication required"@,
        ApiError::NotFound(m) => "Not found: "@ + m@,
        ApiError::BadRequest(m) => "Bad request: "@ + m@,
        ApiError::RateLimitExceeded => "Rate limit exceeded"@,
        ApiError::DatabaseError(m) => "Database error: "@ + m@,
        ApiError::CacheError(m) => "Cache error: "@ + m@,
        ApiError::InternalError(m) => "Internal error: "@ + m@,
    }
}

/// The HTTP status of an error.
pub open spec fn error_status(e: ApiError) -> u16 {
    match e {
        ApiError::Unauthorized => 401,
        ApiError::NotFound(_) => 404,
        ApiError::BadRequest(_) => 400,
        ApiError::RateLimitExceeded => 429,
        _ => 500,
    }
}

/// The machine-readable code of an error.
pub open spec fn error_code(e: ApiError) -> Seq<char> {
    match e {
        ApiError::Unauthorized => "UNAUTHORIZED"@,
        ApiError::NotFound(_) => "NOT_FOUND"@,
        ApiError::BadRequest(_) => "BAD_REQUEST"@,
        ApiError::RateLimitExceeded => "RATE_LIMIT_EXCEEDED"@,
        ApiError::DatabaseError(_) => "DATABASE_ERROR"@,
        ApiError::CacheError(_) => "CACHE_ERROR"@,
        ApiError::InternalError(_) => "INTERNAL_ERROR"@,
    }
}

/// The message an error response carries.
pub open spec fn error_body(e: ApiError) -> Seq<char> {
    match e {
        ApiError::Unauthorized => "Authentication required"@,
        ApiError::NotFound(m) => m@,
        ApiError::BadRequest(m) => m@,
        ApiError::RateLimitExceeded => "Too many requests"@,
        ApiError::DatabaseError(m) => "Database error: "@ + m@,
        ApiError::CacheError(m) => "Cache error: "@ + m@,
        ApiError::InternalError(m) => m@,
    }
}

impl ApiError {
    /// The text of the error (see `error_text`).
    pub fn message(&self) -> (s: String)
        ensures
            s@ == error_text(*self),
    {
        match self {
            ApiError::Unauthorized => "Authentication required".to_string(),
            ApiError::NotFound(m) => join2("Not found: ", m.as_str()),
            ApiError::BadRequest(m) => join2("Bad request: ", m.as_str()),
            ApiError::RateLimitExceeded => "Rate limit exceeded".to_string(),
            ApiError::DatabaseError(m) => join2("Database error: ", m.as_str()),
            ApiError::CacheError(m) => join2("Cache error: ", m.as_str()),
            ApiError::InternalError(m) => join2("Internal error: ", m.as_str()),
        }
    }

    /// The HTTP status of the error's response.
    pub fn status(&self) -> (code: u16)
        ensures
            code == error_status(*self),
    {
        match self {
            ApiError::Unauthorized => 401,
            ApiError::NotFound(_) => 404,
            ApiError::BadRequest(_) => 400,
            ApiError::RateLimitExceeded => 429,
            _ => 500,
        }
    }

    /// The code of the error's response.
    pub fn code(&self) -> (c: &'static str)
        ensures
            c@ == error_code(*self),
    {
        match self {
            ApiError::Unauthorized => "UNAUTHORIZED",
            ApiError::NotFound(_) => "NOT_FOUND",
            ApiError::BadRequest(_) => "BAD_REQUEST",
            ApiError::RateLimitExceeded => "RATE_LIMIT_EXCEEDED",
            ApiError::DatabaseError(_) => "DATABASE_ERROR",
            ApiError::CacheError(_) => "CACHE_ERROR",
            ApiError::InternalError(_) => "INTERNAL_ERROR",
        }
    }

    /// The message of the error's response.
    pub fn body_message(&self) -> (s: String)
        ensures
            s@ == error_body(*self),
    {
        match self {
            ApiError::Unauthorized => "Authentication required".to_string(),
            ApiError::NotFound(m) => m.clone(),
            ApiError::BadRequest(m) => m.clone(),
            ApiError::RateLimitExceeded => "Too many requests".to_string(),
            ApiError::DatabaseError(m) => join2("Database error: ", m.as_str()),
            ApiError::CacheError(m) => join2("Cache error: ", m.as_str()),
            ApiError::InternalError(m) => m.clone(),
        }
    }
}

/// A `BadRequest` with message `m`.
pub open spec fn bad_request(e: ApiError, m: Seq<char>) -> bool {
    e matches ApiError::BadRequest(s) && s@ == m
}

/// The administrators named by a comma-separated setting: its fields,
/// trimmed, leaving out the empty ones.
pub open spec fn admin_ids(setting: Seq<char>) -> Seq<Seq<char>> {
    trimmed_fields(setting, ',').filter(|f: Seq<char>| f.len() > 0)
}

/// Whether `user_id` may manage providers under the administrator
/// setting `setting`: anyone may when no administrator is named.
pub open spec fn may_administer(setting: Seq<char>, user_id: Seq<char>) -> bool {
    admin_ids(setting).len() == 0 || admin_ids(setting).contains(user_id)
}

/// `Ok` when `user_id` may manage providers under the comma-separated
/// administrator list `admin_setting`, else `Unauthorized`.
pub fn verify_admin(admin_setting: &str, user_id: &str) -> (r: Result<(), ApiError>)
    ensures
        r is Ok <==> may_administer(admin_setting@, user_id@),
        r is Err ==> r == Err::<(), ApiError>(ApiError::Unauthorized),
{
    let fields = split_trimmed(&chars_of(admin_setting), ',');
    let ghost all = trimmed_fields(admin_setting@, ',');
    let ghost keep = |f: Seq<char>| f.len() > 0;
    let mut any_named = false;
    let mut found = false;
    let mut i: usize = 0;
    while i < fields.len()
        invariant
            i <= fields@.len(),
            fields@.len() == all.len(),
            forall|j: int| 0 <= j < fields@.len() ==> (#[trigger] fields@[j])@ == all[j],
            keep == (|f: Seq<char>| f.len() > 0),
            any_named == (all.take(i as int).filter(keep).len() > 0),
            found == all.take(i as int).filter(keep).contains(user_id@),
        decreases fields.len() - i,
    {
        let named = !fields[i].as_str().is_empty();
        let same = same_text(fields[i].as_str(), user_id);
        proof {
            let t = all.take(i + 1);
            assert(t.drop_last() =~= all.take(i as int));
            assert(t.last() == all[i as int]);
            assert(fields@[i as int]@ == all[i as int]);
            reveal(Seq::filter);
            assert(t.filter(keep) == if keep(all[i as int]) { t.drop_last().filter(keep).push(all[i as int]) } else { t.drop_last().filter(keep) });
            if keep(all[i as int]) {
                let f = t.drop_last().filter(keep);
                assert(f.push(all[i as int]).contains(user_id@) == (f.contains(user_id@) || all[i as int] == user_id@)) by {
                    if f.contains(user_id@) {
                        let x = choose|x: int| 0 <= x < f.len() && f[x] == user_id@;
                        assert(f.push(all[i as int])[x] == user_id@);
                    }
                    if all[i as int] == user_id@ {
                        assert(f.push(all[i as int])[f.len() as int] == user_id@);
                    }
                }
            }
        }
        if named {
            any_named = true;
            if same {
                found = true;
            }
        }
        i += 1;
    }
    proof {
        assert(all.take(all.len() as int) =~= all);
    }
    if !any_named || found {
        Ok(())
    } else {
        Err(ApiError::Unauthorized)
    }
}

/// The scheme of the URL that `text` parses to, or `None` when it does not
/// parse (`url::Url::parse`, then `Url::scheme`).
pub uninterp spec fn url_scheme(text: Seq<char>) -> Option<Seq<char>>;

/// The host of the URL that `text` parses to, when it parses and has one
/// (`url::Url::parse`, then `Url::host_str`).
pub uninterp spec fn url_host(text: Seq<char>) -> Option<Seq<char>>;

/// `url::Url::parse`, then `Url::scheme`: the scheme of the parsed URL, or
/// `None` when `text` does not parse.
#[verifier::external_body]
fn parsed_scheme(text: &str) -> (r: Option<String>)
    ensures
        match r {
            Some(s) => url_scheme(text@) == Some(s@),
            None => url_scheme(text@) is None,
        },
{
    url::Url::parse(text).ok().map(|u| u.scheme().to_string())
}

/// `url::Url::parse`, then `Url::host_str`: the host of the parsed URL, when
/// `text` parses and the URL has one.
#[verifier::external_body]
fn parsed_host(text: &str) -> (r: Option<String>)
    ensures
        match r {
            Some(h) => url_host(text@) == Some(h@),
            None => url_host(text@) is None,
        },
{
    url::Url::parse(text).ok().and_then(|u| u.host_str().map(|h| h.to_string()))
}

/// Whether a host names this machine or a private network.
pub open spec fn is_local_host(h: Seq<char>) -> bool {
    ||| h == "localhost"@
    ||| h == "127.0.0.1"@
    ||| h == "::1"@
    ||| seq_starts_with(h, "10."@)
    ||| seq_starts_with(h, "192.168."@)
    ||| seq_starts_with(h, "172.16."@)
    ||| seq_starts_with(h, "172.17."@)
    ||| seq_starts_with(h, "172.18."@)
    ||| seq_starts_with(h, "172.19."@)
    ||| seq_starts_with(h, "172.2"@)
    ||| seq_starts_with(h, "172.3"@)
    ||| seq_starts_with(h, "0.0.0.0"@)
}

/// The outcome of the base-URL checks, given what the URL parser makes of
/// it: its scheme (`None` when it does not parse) and its host.
pub open spec fn base_url_verdict(scheme: Option<Seq<char>>, host: Option<Seq<char>>, allow_local: bool) -> Result<(), Seq<char>> {
    match scheme {
        None => Err("Invalid base_url format"@),
        Some(s) => if s != "https"@ && s != "http"@ {
            Err("base_url must use http or https"@)
        } else if !allow_local && host is Some && is_local_host(host->0) {
            Err("Internal/local URLs not allowed for remote providers"@)
        } else {
            Ok(())
        },
    }
}

/// Whether `h` names this machine or a private network.
pub fn local_host(h: &str) -> (r: bool)
    ensures
        r == is_local_host(h@),
{
    let c = chars_of(h);
    same_text(h, "localhost")
        || same_text(h, "127.0.0.1")
        || same_text(h, "::1")
        || begins_with(&c, "10.")
        || begins_with(&c, "192.168.")
        || begins_with(&c, "172.16.")
        || begins_with(&c, "172.17.")
        || begins_with(&c, "172.18.")
        || begins_with(&c, "172.19.")
        || begins_with(&c, "172.2")
        || begins_with(&c, "172.3")
        || begins_with(&c, "0.0.0.0")
}

/// The base-URL checks on a parsed URL's scheme and host.
pub fn check_parsed_base_url(scheme: Option<&str>, host: Option<&str>, allow_local: bool) -> (r: Result<(), ApiError>)
    ensures
        match base_url_verdict(
            match scheme { Some(s) => Some(s@), None => None },
            match host { Some(h) => Some(h@), None => None },
            allow_local,
        ) {
            Ok(()) => r is Ok,
            Err(m) => r is Err && bad_request(r->Err_0, m),
        },
{
    match scheme {
        None => Err(ApiError::BadRequest("Invalid base_url format".to_string())),
        Some(s) => {
            if !same_text(s, "https") && !same_text(s, "http") {
                return Err(ApiError::BadRequest("base_url must use http or https".to_string()));
            }
            if !allow_local {
                if let Some(h) = host {
                    if local_host(h) {
                        return Err(ApiError::BadRequest("Internal/local URLs not allowed for remote providers".to_string()));
                    }
                }
            }
            Ok(())
        },
    }
}

/// Checks a provider's base URL: it must parse, use http or https, and,
/// unless `allow_local`, not point at this machine or a private network.
pub fn validate_base_url(url: &str, allow_local: bool) -> (r: Result<(), ApiError>)
    ensures
        match base_url_verdict(url_scheme(url@), url_host(url@), allow_local) {
            Ok(()) => r is Ok,
            Err(m) => r is Err && bad_request(r->Err_0, m),
        },
{
    let scheme = parsed_scheme(url);
    match scheme {
        None => check_parsed_base_url(None, None, allow_local),
        Some(s) => {
            let host = parsed_host(url);
            match host {
                Some(h) => check_parsed_base_url(Some(s.as_str()), Some(h.as_str()), allow_local),
                None => check_parsed_base_url(Some(s.as_str()), None, allow_local),
            }
        },
    }
}

/// The outcome of the header-name checks.
pub open spec fn header_key_verdict(key: Seq<char>, bytes: nat) -> Result<(), Seq<char>> {
    if key.len() == 0 || bytes > 100 {
        Err("Header key must be 1-100 characters"@)
    } else if exists|i: int| 0 <= i < key.len() && !unicode_alphanumeric(#[trigger] key[i]) && key[i] != '-' {
        Err("Header key contains invalid characters"@)
    } else {
        Ok(())
    }
}

/// Checks a header name: 1 to 100 bytes (in UTF-8) of letters, digits and `-`.
pub fn sanitize_header_key(key: &str) -> (r: Result<(), ApiError>)
    ensures
        match header_key_verdict(key@, key.spec_bytes().len()) {
            Ok(()) => r is Ok,
            Err(m) => r is Err && bad_request(r->Err_0, m),
        },
{
    if key.is_empty() || key.as_bytes().len() > 100 {
        return Err(ApiError::BadRequest("Header key must be 1-100 characters".to_string()));
    }
    let c = chars_of(key);
    let mut j: usize = 0;
    while j < c.len()
        invariant
            j <= c@.len(),
            c@ == key@,
            key@.len() != 0,
            key.spec_bytes().len() <= 100,
            forall|k: int| 0 <= k < j ==> unicode_alphanumeric(#[trigger] c@[k]) || c@[k] == '-',
        decreases c.len() - j,
    {
        let ch = c[j];
        if !(char_is_alphanumeric(ch) || ch == '-') {
            proof {
                assert(key@[j as int] == ch);
                assert(!unicode_alphanumeric(key@[j as int]) && key@[j as int] != '-');
            }
            return Err(ApiError::BadRequest("Header key contains invalid characters".to_string()));
        }
        j += 1;
    }
    Ok(())
}

/// Checks a provider's answer length: 1 to 32768 tokens.
pub fn check_max_tokens(max_tokens: u32) -> (r: Result<(), ApiError>)
    ensures
        r is Ok <==> 1 <= max_tokens <= 32768,
        r is Err ==> bad_request(r->Err_0, "max_tokens must be between 1 and 32768"@),
{
    if max_tokens == 0 || max_tokens > 32768 {
        return Err(ApiError::BadRequest("max_tokens must be between 1 and 32768".to_string()));
    }
    Ok(())
}

/// Checks a provider's timeout: 1 to 120 seconds.
pub fn check_timeout(timeout_ms: u64) -> (r: Result<(), ApiError>)
    ensures
        r is Ok <==> 1000 <= timeout_ms <= 120000,
        r is Err ==> bad_request(r->Err_0, "timeout_ms must be between 1000 and 120000"@),
{
    if timeout_ms < 1000 || timeout_ms > 120000 {
        return Err(ApiError::BadRequest("timeout_ms must be between 1000 and 120000".to_string()));
    }
    Ok(())
}

/// The registry name of a custom provider serving `model`: `custom_` and
/// the model's name; a custom provider must name its model.
pub fn custom_provider_name(model: Option<&str>) -> (r: Result<String, ApiError>)
    ensures
        match model {
            Some(m) => if m@.len() > 0 {
                r is Ok && r->Ok_0@ == "custom_"@ + m@
            } else {
                r is Err && bad_request(r->Err_0, "model name is required for custom providers"@)
            },
            None => r is Err && bad_request(r->Err_0, "model name is required for custom providers"@),
        },
{
    match model {
        Some(m) => {
            if m.is_empty() {
                Err(ApiError::BadRequest("model name is required for custom providers".to_string()))
            } else {
                Ok(join2("custom_", m))
            }
        },
        None => Err(ApiError::BadRequest("model name is required for custom providers".to_string())),
    }
}

/// What a verified access token says: who made the request, and when the
/// token was issued and expires, in seconds since the epoch.
#[derive(Debug, Clone, PartialEq, Eq)]
pub struct Claims {
    pub user_id: String,
    pub exp: usize,
    pub iat: usize,
}

/// The token of an `Authorization` header of the form `Bearer <token>`;
/// none for a missing header or any other form.
pub fn bearer_token(header: Option<&str>) -> (t: Option<String>)
    ensures
        match header {
            Some(h) => if seq_starts_with(h@, "Bearer "@) {
                t matches Some(x) && x@ == h@.skip(7)
            } else {
                t is None
            },
            None => t is None,
        },
{
    match header {
        Some(h) => {
            let c = chars_of(h);
            proof {
                reveal_strlit("Bearer ");
            }
            if begins_with(&c, "Bearer ") {
                let token = crate::text::string_of(&c, 7, c.len());
                proof {
                    assert(token@ =~= h@.skip(7));
                }
                Some(token)
            } else {
                None
            }
        },
        None => None,
    }
}

} // verus!
