//! The decisions around one call to a language-model provider: whether the
//! call may be made, where it goes, what an HTTP status means, how often and
//! how long to wait before trying again, and how a streamed answer is read
//! line by line. The network calls themselves are made by the caller.

use vstd::prelude::*;
use crate::chat::{ChatResponse, make_reply};
use crate::prompt::digits_of;
use crate::provider_health::{ProviderMetrics, TokenBucket, acquire_spec, CIRCUIT_BREAKER_THRESHOLD};
use crate::text::{join2, join3, push_str, push_char, chars_of, find_from, first_occurrence_from, string_of,
    trim, trimmed_chars, seq_starts_with, occurs_at, same_text, split_on, split_chars};
use crate::prompt::{decimal_u64};

verus! {

/// Retries after a first failed attempt.
pub const MAX_RETRIES: u32 = 3;
/// Wait before the first retry, in milliseconds.
pub const INITIAL_BACKOFF_MS: u64 = 100;
/// Longest wait between retries, in milliseconds.
pub const MAX_BACKOFF_MS: u64 = 2000;

/// Why a call to a provider failed.
#[derive(Debug, Clone, PartialEq, Eq)]
pub enum LLMError {
    /// The request could not be sent or its answer read.
    Request(String),
    /// The provider answered with an error status and this text.
    RequestFailed(u16, String),
    /// The answer could not be understood.
    InvalidResponse(String),
    /// The provider asks to slow down, maybe saying for how many seconds.
    RateLimited(Option<u64>),
    /// The provider is disabled or failing.
    Unhealthy(String),
    /// The answer held no text.
    EmptyResponse,
    /// No answer came within this many milliseconds.
    Timeout(u64),
}

/// The text of a length of time as `std`'s `Duration` shows it for a whole
/// number of milliseconds: `0ns`, `250ms`, `30s` or `1.5s`.
pub open spec fn duration_text(ms: u64) -> Seq<char> {
    if ms == 0 {
        "0ns"@
    } else if ms < 1000 {
        digits_of(ms as nat) + "ms"@
    } else {
        digits_of((ms / 1000) as nat) + fraction_text((ms % 1000) as nat) + "s"@
    }
}

/// The decimal fraction of `m` thousandths, without trailing zeros (empty
/// for 0).
pub open spec fn fraction_text(m: nat) -> Seq<char> {
    let d1 = crate::prompt::digit_char(m / 100);
    let d2 = crate::prompt::digit_char((m / 10) % 10);
    let d3 = crate::prompt::digit_char(m % 10);
    if m == 0 {
        Seq::empty()
    } else if m % 10 != 0 {
        seq!['.', d1, d2, d3]
    } else if (m / 10) % 10 != 0 {
        seq!['.', d1, d2]
    } else {
        seq!['.', d1]
    }
}

/// The text of an error, as shown in logs.
pub open spec fn llm_error_text(e: LLMError) -> Seq<char> {
    match e {
        LLMError::Request(m) => "HTTP request failed: "@ + m@,
        LLMError::RequestFailed(s, m) => "Request failed with status "@ + digits_of(s as nat) + ": "@ + m@,
        LLMError::InvalidResponse(m) => "Invalid response: "@ + m@,
        LLMError::RateLimited(None) => "Rate limited: retry after None"@,
        LLMError::RateLimited(Some(secs)) => "Rate limited: retry after Some("@ + digits_of(secs as nat) + "s)"@,
        LLMError::Unhealthy(m) => "Provider unhealthy: "@ + m@,
        LLMError::EmptyResponse => "No content in response"@,
        LLMError::Timeout(ms) => "Timeout after "@ + duration_text(ms),
    }
}

/// The text of `m` thousandths as a decimal fraction (see `fraction_text`).
fn fraction_string(m: u64) -> (s: String)
    requires
        m < 1000,
    ensures
        s@ == fraction_text(m as nat),
{
    let mut s = String::new();
    if m == 0 {
        return s;
    }
    let d1 = ((48 + m / 100) as u8) as char;
    let d2 = ((48 + (m / 10) % 10) as u8) as char;
    let d3 = ((48 + m % 10) as u8) as char;
    push_char(&mut s, '.');
    push_char(&mut s, d1);
    if m % 10 != 0 {
        push_char(&mut s, d2);
        push_char(&mut s, d3);
    } else if (m / 10) % 10 != 0 {
        push_char(&mut s, d2);
    }
    proof {
        assert(d1 == crate::prompt::digit_char((m / 100) as nat));
        assert(d2 == crate::prompt::digit_char(((m / 10) % 10) as nat));
        assert(d3 == crate::prompt::digit_char((m % 10) as nat));
        assert(s@ =~= fraction_text(m as nat));
    }
    s
}

/// The text of `ms` milliseconds (see `duration_text`).
pub fn duration_string(ms: u64) -> (s: String)
    ensures
        s@ == duration_text(ms),
{
    if ms == 0 {
        "0ns".to_string()
    } else if ms < 1000 {
        join2(decimal_u64(ms).as_str(), "ms")
    } else {
        let whole = decimal_u64(ms / 1000);
        let frac = fraction_string(ms % 1000);
        join3(whole.as_str(), frac.as_str(), "s")
    }
}

impl LLMError {
    /// The text of the error (see `llm_error_text`).
    pub fn message(&self) -> (s: String)
        ensures
            s@ == llm_error_text(*self),
    {
        match self {
            LLMError::Request(m) => join2("HTTP request failed: ", m.as_str()),
            LLMError::RequestFailed(status, m) => {
                let code = decimal_u64(*status as u64);
                let head = join3("Request failed with status ", code.as_str(), ": ");
                join2(head.as_str(), m.as_str())
            },
            LLMError::InvalidResponse(m) => join2("Invalid response: ", m.as_str()),
            LLMError::RateLimited(None) => "Rate limited: retry after None".to_string(),
            LLMError::RateLimited(Some(secs)) => {
                let n = decimal_u64(*secs);
                join3("Rate limited: retry after Some(", n.as_str(), "s)")
            },
            LLMError::Unhealthy(m) => join2("Provider unhealthy: ", m.as_str()),
            LLMError::EmptyResponse => "No content in response".to_string(),
            LLMError::Timeout(ms) => {
                let d = duration_string(*ms);
                join2("Timeout after ", d.as_str())
            },
        }
    }
}

/// An `Unhealthy` error with message `m`.
pub open spec fn unhealthy_with(e: LLMError, m: Seq<char>) -> bool {
    e matches LLMError::Unhealthy(s) && s@ == m
}

/// The message of a disabled provider.
pub open spec fn disabled_text(name: Seq<char>) -> Seq<char> {
    "Provider '"@ + name + "' is disabled"@
}

/// The message of a provider with too many errors in a row.
pub open spec fn failing_text(name: Seq<char>) -> Seq<char> {
    "Provider '"@ + name + "' has too many consecutive errors"@
}

/// Whether a call to provider `name` may be made now: it must be enabled,
/// healthy by `metrics`, and get a token from `bucket` (which is asked only
/// when the first two hold).
pub fn may_call(name: &str, enabled: bool, metrics: &ProviderMetrics, bucket: &mut TokenBucket) -> (r: Result<(), LLMError>)
    requires
        metrics.wf(),
        old(bucket).wf(),
    ensures
        !enabled ==> r is Err && unhealthy_with(r->Err_0, disabled_text(name@)) && final(bucket).state() == old(bucket).state(),
        enabled && !metrics.open() && metrics.consecutive() >= CIRCUIT_BREAKER_THRESHOLD ==>
            r is Err && unhealthy_with(r->Err_0, failing_text(name@)) && final(bucket).state() == old(bucket).state(),
        r is Err && unhealthy_with(r->Err_0, failing_text(name@)) ==> final(bucket).state() == old(bucket).state(),
        enabled && !metrics.open() && metrics.consecutive() < CIRCUIT_BREAKER_THRESHOLD ==>
            exists|now: i64| #[trigger] acquire_spec(old(bucket).state(), now) == (final(bucket).state(), r is Ok),
        enabled && r is Err && !unhealthy_with(r->Err_0, failing_text(name@)) ==> r == Err::<(), LLMError>(LLMError::RateLimited(None)),
{
    if !enabled {
        return Err(LLMError::Unhealthy(join3("Provider '", name, "' is disabled")));
    }
    if !metrics.is_healthy() {
        return Err(LLMError::Unhealthy(join3("Provider '", name, "' has too many consecutive errors")));
    }
    if !bucket.try_acquire() {
        return Err(LLMError::RateLimited(None));
    }
    Ok(())
}

/// What an HTTP status says before the body is read.
#[derive(Debug, Clone, PartialEq, Eq)]
pub enum StatusClass {
    /// 429: slow down, maybe for this many seconds.
    TooManyRequests(Option<u64>),
    /// Another status outside 200..=299: the body tells what went wrong.
    Failed,
    /// A success status.
    Success,
}

/// The value of a decimal text as `u64::from_str` reads it: an optional
/// `+`, then at least one ASCII digit; `None` for anything else or a value
/// too large.
pub open spec fn decimal_value(s: Seq<char>) -> Option<nat> {
    let d = if s.len() > 0 && s[0] == '+' { s.skip(1) } else { s };
    if d.len() > 0 && all_digits(d) && digits_value(d) <= u64::MAX {
        Some(digits_value(d))
    } else {
        None
    }
}

/// Every character is an ASCII digit.
pub open spec fn all_digits(d: Seq<char>) -> bool {
    forall|i: int| 0 <= i < d.len() ==> '0' <= #[trigger] d[i] <= '9'
}

/// The value of a string of ASCII digits.
pub open spec fn digits_value(d: Seq<char>) -> nat
    decreases d.len(),
{
    if d.len() == 0 {
        0
    } else {
        digits_value(d.drop_last()) * 10 + ((d.last() as int - 48) as nat)
    }
}

proof fn lemma_digits_value_grows(d: Seq<char>, i: int)
    requires
        0 <= i <= d.len(),
        forall|k: int| 0 <= k < d.len() ==> '0' <= #[trigger] d[k] <= '9',
    ensures
        digits_value(d.take(i)) <= digits_value(d),
    decreases d.len() - i,
{
    if i < d.len() {
        lemma_digits_value_grows(d, i + 1);
        assert(d.take(i + 1).drop_last() =~= d.take(i));
    } else {
        assert(d.take(i) =~= d);
    }
}

/// The number a text gives, read as `u64::from_str` reads it (see
/// `decimal_value`).
pub fn parse_u64(s: &str) -> (r: Option<u64>)
    ensures
        r is Some ==> decimal_value(s@) == Some(r->0 as nat),
        r is None ==> decimal_value(s@) is None,
{
    let c = chars_of(s);
    let start: usize = if c.len() > 0 && c[0] == '+' { 1 } else { 0 };
    let digits = crate::text::slice_chars(&c, start, c.len());
    let ghost d = if s@.len() > 0 && s@[0] == '+' { s@.skip(1) } else { s@ };
    proof {
        assert(d =~= digits@);
    }
    if digits.len() == 0 {
        proof {
            assert(d.len() == 0);
            assert(decimal_value(s@) is None);
        }
        return None;
    }
    let mut value: u64 = 0;
    let mut i: usize = 0;
    while i < digits.len()
        invariant
            i <= digits@.len(),
            d == digits@,
            d == (if s@.len() > 0 && s@[0] == '+' { s@.skip(1) } else { s@ }),
            d.len() > 0,
            forall|k: int| 0 <= k < i ==> '0' <= #[trigger] d[k] <= '9',
            value == digits_value(d.take(i as int)),
        decreases digits.len() - i,
    {
        let ch = digits[i];
        proof {
            assert(d.take(i + 1).drop_last() =~= d.take(i as int));
        }
        if ch < '0' || ch > '9' {
            proof {
                assert(!('0' <= d[i as int] <= '9'));
                assert(decimal_value_of_digits_fails(d));
            }
            return None;
        }
        let digit = (ch as u32 - 48) as u64;
        match value.checked_mul(10) {
            None => {
                proof {
                    lemma_rest_digits(d, i as int);
                }
                return None;
            },
            Some(v10) => match v10.checked_add(digit) {
                None => {
                    proof {
                        lemma_rest_digits(d, i as int);
                    }
                    return None;
                },
                Some(v) => {
                    value = v;
                },
            },
        }
        i += 1;
    }
    proof {
        assert(d.take(d.len() as int) =~= d);
    }
    Some(value)
}

/// When a prefix is already too large, so is the whole number, or the text
/// holds something other than digits.
proof fn lemma_rest_digits(d: Seq<char>, j: int)
    requires
        0 <= j < d.len(),
        digits_value(d.take(j)) * 10 + ((d[j] as int - 48) as nat) > u64::MAX,
        '0' <= d[j] <= '9',
    ensures
        decimal_value_of_digits_fails(d),
{
    assert(d.take(j + 1).drop_last() =~= d.take(j));
    if all_digits(d) {
        lemma_digits_value_grows(d, j + 1);
    }
}

/// The digits of `d` do not make a `u64`.
pub open spec fn decimal_value_of_digits_fails(d: Seq<char>) -> bool {
    !(all_digits(d) && digits_value(d) <= u64::MAX)
}

/// What a status says before the body is read: 429 asks to slow down
/// (for the seconds the `Retry-After` header gives, when it is a number),
/// a status outside 200..=299 is a failure, the rest a success.
pub fn status_class(status: u16, retry_after: Option<&str>) -> (c: StatusClass)
    ensures
        status == 429 ==> c == StatusClass::TooManyRequests(match retry_after {
            Some(h) => match decimal_value(h@) { Some(v) => Some(v as u64), None => None },
            None => None,
        }),
        status != 429 && !(200 <= status <= 299) ==> c == StatusClass::Failed,
        status != 429 && 200 <= status <= 299 ==> c == StatusClass::Success,
{
    if status == 429 {
        let secs = match retry_after {
            Some(h) => parse_u64(h),
            None => None,
        };
        return StatusClass::TooManyRequests(secs);
    }
    if status < 200 || status > 299 {
        return StatusClass::Failed;
    }
    StatusClass::Success
}

/// The error for a failed status: the status and the first 200 characters
/// of the body.
pub fn failure_error(status: u16, body: &str) -> (e: LLMError)
    ensures
        e matches LLMError::RequestFailed(s, m) && s == status
            && m@ == if body@.len() > 200 { body@.take(200) } else { body@ },
{
    let c = chars_of(body);
    let n = if c.len() > 200 { 200 } else { c.len() };
    let text = string_of(&c, 0, n);
    proof {
        if body@.len() <= 200 {
            assert(body@.subrange(0, n as int) =~= body@);
        } else {
            assert(body@.subrange(0, 200) =~= body@.take(200));
        }
    }
    LLMError::RequestFailed(status, text)
}

/// The error for a request that got no answer: a timeout after the
/// provider's limit, or the transport's own description.
pub fn transport_error(is_timeout: bool, timeout_ms: u64, description: String) -> (e: LLMError)
    ensures
        is_timeout ==> e == LLMError::Timeout(timeout_ms),
        !is_timeout ==> e == LLMError::Request(description),
{
    if is_timeout {
        LLMError::Timeout(timeout_ms)
    } else {
        LLMError::Request(description)
    }
}

/// The reply made from a provider's answer: neutral, talking, from
/// `llm:` and the provider's name, not cached.
pub fn model_reply(provider: &str, content: String, latency_ms: u64) -> (r: ChatResponse)
    ensures
        r.response@ == content@,
        r.emotion@ == "neutral"@,
        r.animation@ == "talk"@,
        r.source@ == "llm:"@ + provider@,
        r.latency_ms == latency_ms,
        r.cached == Some(false),
{
    let source = join2("llm:", provider);
    make_reply(content, "neutral", "talk", source.as_str(), latency_ms, Some(false))
}

/// The kinds of provider request formats.
#[derive(Debug, Clone, Copy, PartialEq, Eq, Structural)]
pub enum AdapterKind {
    OpenAI,
    Anthropic,
    Gemini,
}

/// `s` with every occurrence of `p` (non-empty), from left to right and
/// without overlap, replaced by `r`.
#[verifier::opaque]
pub open spec fn replace_all(s: Seq<char>, p: Seq<char>, r: Seq<char>) -> Seq<char>
    decreases s.len(),
{
    if p.len() == 0 {
        s
    } else {
        match first_occurrence_from(s, p, 0) {
            Some(i) => if 0 <= i && i + p.len() <= s.len() {
                s.take(i) + r + replace_all(s.skip(i + p.len()), p, r)
            } else {
                s
            },
            None => s,
        }
    }
}

/// The URL a request goes to: the chat-completions path for OpenAI-style
/// providers, the messages path for Anthropic, and for Gemini the model's
/// content-generation path (every `MODEL_PLACEHOLDER` in it naming the
/// model).
pub open spec fn endpoint_for(kind: AdapterKind, base_url: Seq<char>, model: Seq<char>) -> Seq<char> {
    match kind {
        AdapterKind::OpenAI => base_url + "/chat/completions"@,
        AdapterKind::Anthropic => base_url + "/messages"@,
        AdapterKind::Gemini => replace_all(base_url + "/models/"@ + "MODEL_PLACEHOLDER"@ + ":generateContent"@,
            "MODEL_PLACEHOLDER"@, model),
    }
}

/// Where the first occurrence of `p` in `s.skip(from)` lies, seen from `s`.
proof fn lemma_shifted_occurrence(s: Seq<char>, p: Seq<char>, from: int, j: int)
    requires
        0 <= from <= s.len(),
        0 <= j,
    ensures
        occurs_at(s.skip(from), p, j) == occurs_at(s, p, from + j),
{
    if from + j + p.len() <= s.len() {
        assert(s.skip(from).subrange(j, j + p.len()) =~= s.subrange(from + j, from + j + p.len()));
    }
}

/// The replacement of the text from `from` on, when `p` occurs first at `i`.
proof fn lemma_replace_at(s: Seq<char>, p: Seq<char>, r: Seq<char>, from: int, i: int)
    requires
        p.len() > 0,
        0 <= from <= i,
        occurs_at(s, p, i),
        forall|j: int| from <= j < i ==> !occurs_at(s, p, j),
    ensures
        replace_all(s.skip(from), p, r) == s.subrange(from, i) + r + replace_all(s.skip(i + p.len()), p, r),
{
    reveal(replace_all);
    let rest = s.skip(from);
    let k = i - from;
    lemma_shifted_occurrence(s, p, from, k);
    assert forall|j: int| 0 <= j < k implies !occurs_at(rest, p, j) by {
        lemma_shifted_occurrence(s, p, from, j);
    }
    let f = first_occurrence_from(rest, p, 0);
    assert(f is Some);
    let fi = f->0;
    if fi < k {
        assert(!occurs_at(rest, p, fi));
    }
    if fi > k {
        assert(occurs_at(rest, p, k));
    }
    assert(fi == k);
    assert(rest.take(k) =~= s.subrange(from, i));
    assert(rest.skip(k + p.len()) =~= s.skip(i + p.len()));
}

/// The replacement of the text from `from` on, when `p` does not occur in it.
proof fn lemma_replace_none(s: Seq<char>, p: Seq<char>, r: Seq<char>, from: int)
    requires
        p.len() > 0,
        0 <= from <= s.len(),
        forall|j: int| from <= j ==> !occurs_at(s, p, j),
    ensures
        replace_all(s.skip(from), p, r) == s.skip(from),
{
    reveal(replace_all);
    let rest = s.skip(from);
    assert forall|j: int| 0 <= j implies !occurs_at(rest, p, j) by {
        lemma_shifted_occurrence(s, p, from, j);
    }
    assert(first_occurrence_from(rest, p, 0) is None);
}

/// `s` with every occurrence of `p` replaced by `r` (see `replace_all`).
pub fn replace_text(s: &str, p: &str, r: &str) -> (out: String)
    requires
        p@.len() > 0,
    ensures
        out@ == replace_all(s@, p@, r@),
{
    let c = chars_of(s);
    let pc = chars_of(p);
    let n = c.len();
    let mut out = String::new();
    let mut from: usize = 0;
    let mut done = false;
    proof {
        assert(c@.skip(0) =~= c@);
    }
    while !done
        invariant
            from <= n,
            n == c@.len(),
            c@ == s@,
            pc@ == p@,
            p@.len() > 0,
            !done ==> out@ + replace_all(c@.skip(from as int), p@, r@) == replace_all(s@, p@, r@),
            done ==> out@ == replace_all(s@, p@, r@),
        decreases n - from + if done { 0int } else { 1int },
    {
        match find_from(&c, &pc, from) {
            None => {
                proof {
                    lemma_replace_none(c@, p@, r@, from as int);
                }
                let tail = string_of(&c, from, n);
                push_str(&mut out, tail.as_str());
                proof {
                    assert(tail@ =~= c@.skip(from as int));
                }
                done = true;
            },
            Some(i) => {
                proof {
                    lemma_replace_at(c@, p@, r@, from as int, i as int);
                }
                let head = string_of(&c, from, i);
                let ghost before = out@;
                push_str(&mut out, head.as_str());
                push_str(&mut out, r);
                proof {
                    assert(out@ =~= before + c@.subrange(from as int, i as int) + r@);
                }
                from = i + pc.len();
            },
        }
    }
    out
}

/// The URL a request goes to (see `endpoint_for`).
pub fn endpoint_url(kind: AdapterKind, base_url: &str, model: &str) -> (url: String)
    ensures
        url@ == endpoint_for(kind, base_url@, model@),
{
    match kind {
        AdapterKind::OpenAI => join2(base_url, "/chat/completions"),
        AdapterKind::Anthropic => join2(base_url, "/messages"),
        AdapterKind::Gemini => {
            let head = join3(base_url, "/models/", "MODEL_PLACEHOLDER");
            let full = join2(head.as_str(), ":generateContent");
            proof {
                reveal_strlit("MODEL_PLACEHOLDER");
            }
            replace_text(full.as_str(), "MODEL_PLACEHOLDER", model)
        },
    }
}

/// What to do after a failed attempt.
#[derive(Debug, Clone, Copy, PartialEq, Eq, Structural)]
pub enum RetryStep {
    /// Stop and report the error.
    GiveUp,
    /// Wait this many seconds, then try again.
    WaitThenRetry(u64),
    /// Try again.
    Retry,
}

/// The decision after attempt `attempt` (from 0) failed with `e`: bad
/// answers and unhealthy providers are not retried; a rate limit with a
/// delay is waited out while retries remain, one without is not retried;
/// other failures are retried while retries remain.
pub open spec fn retry_decision(attempt: u32, e: LLMError) -> RetryStep {
    match e {
        LLMError::InvalidResponse(_) => RetryStep::GiveUp,
        LLMError::Unhealthy(_) => RetryStep::GiveUp,
        LLMError::RateLimited(Some(secs)) => if attempt < MAX_RETRIES { RetryStep::WaitThenRetry(secs) } else { RetryStep::GiveUp },
        LLMError::RateLimited(None) => RetryStep::GiveUp,
        _ => if attempt == MAX_RETRIES { RetryStep::GiveUp } else { RetryStep::Retry },
    }
}

/// The pause after `ms`: twice as long, up to `MAX_BACKOFF_MS`.
pub open spec fn next_backoff(ms: u64) -> u64 {
    if 2 * ms < MAX_BACKOFF_MS { (2 * ms) as u64 } else { MAX_BACKOFF_MS }
}

/// The retry state of one call: the attempt under way and the pause before
/// the next retry.
pub struct RetryState {
    attempt: u32,
    backoff_ms: u64,
}

impl RetryState {
    /// The attempt under way, from 0.
    pub closed spec fn attempt_spec(&self) -> u32 {
        self.attempt
    }

    /// The pause before the next retry, in milliseconds.
    pub closed spec fn backoff_spec(&self) -> u64 {
        self.backoff_ms
    }

    /// At most the last attempt, and a pause within its bounds.
    pub open spec fn wf(&self) -> bool {
        &&& self.attempt_spec() <= MAX_RETRIES
        &&& INITIAL_BACKOFF_MS <= self.backoff_spec() <= MAX_BACKOFF_MS
    }

    /// The state before the first attempt.
    pub fn new() -> (s: Self)
        ensures
            s.wf(),
            s.attempt_spec() == 0,
            s.backoff_spec() == INITIAL_BACKOFF_MS,
    {
        RetryState { attempt: 0, backoff_ms: INITIAL_BACKOFF_MS }
    }

    /// The attempt under way.
    pub fn attempt(&self) -> (a: u32)
        ensures
            a == self.attempt_spec(),
    {
        self.attempt
    }

    /// The pause to make before the attempt under way: none before the
    /// first; before a retry the current pause, which then doubles, up to
    /// `MAX_BACKOFF_MS`.
    pub fn pause_before_attempt(&mut self) -> (ms: u64)
        requires
            old(self).wf(),
        ensures
            final(self).wf(),
            final(self).attempt_spec() == old(self).attempt_spec(),
            old(self).attempt_spec() == 0 ==> ms == 0 && final(self).backoff_spec() == old(self).backoff_spec(),
            old(self).attempt_spec() > 0 ==> ms == old(self).backoff_spec() && final(self).backoff_spec() == next_backoff(old(self).backoff_spec()),
    {
        if self.attempt == 0 {
            return 0;
        }
        let ms = self.backoff_ms;
        self.backoff_ms = if ms * 2 < MAX_BACKOFF_MS { ms * 2 } else { MAX_BACKOFF_MS };
        ms
    }

    /// Decides what follows a failed attempt (see `retry_decision`); when it
    /// is retried, the next attempt begins.
    pub fn on_error(&mut self, e: &LLMError) -> (step: RetryStep)
        requires
            old(self).wf(),
        ensures
            final(self).wf(),
            step == retry_decision(old(self).attempt_spec(), *e),
            step == RetryStep::GiveUp ==> final(self).attempt_spec() == old(self).attempt_spec(),
            step != RetryStep::GiveUp ==> final(self).attempt_spec() == old(self).attempt_spec() + 1,
            final(self).backoff_spec() == old(self).backoff_spec(),
    {
        let step = match e {
            LLMError::InvalidResponse(_) => RetryStep::GiveUp,
            LLMError::Unhealthy(_) => RetryStep::GiveUp,
            LLMError::RateLimited(Some(secs)) => {
                if self.attempt < MAX_RETRIES { RetryStep::WaitThenRetry(*secs) } else { RetryStep::GiveUp }
            },
            LLMError::RateLimited(None) => RetryStep::GiveUp,
            _ => {
                if self.attempt == MAX_RETRIES { RetryStep::GiveUp } else { RetryStep::Retry }
            },
        };
        if step != RetryStep::GiveUp {
            self.attempt = self.attempt + 1;
        }
        step
    }
}

/// What one line of a streamed answer says.
#[derive(Debug, Clone, PartialEq, Eq)]
pub enum SseLine {
    /// Not a data line.
    Skip,
    /// The end of the answer.
    Done,
    /// A data line with this payload.
    Data(String),
}

/// A line of a streamed answer, trimmed: data lines start with `data: `;
/// the payload `[DONE]` ends the answer.
pub open spec fn sse_line_of(line: Seq<char>) -> Option<Option<Seq<char>>> {
    let t = trim(line);
    if !seq_starts_with(t, "data: "@) {
        None
    } else if t.skip(6) == "[DONE]"@ {
        Some(None)
    } else {
        Some(Some(t.skip(6)))
    }
}

/// What a line of a streamed answer says (see `sse_line_of`: `None` is
/// `Skip`, `Some(None)` is `Done`).
pub fn sse_line(line: &str) -> (r: SseLine)
    ensures
        match r {
            SseLine::Skip => sse_line_of(line@) is None,
            SseLine::Done => sse_line_of(line@) == Some(None::<Seq<char>>),
            SseLine::Data(d) => sse_line_of(line@) == Some(Some(d@)),
        },
{
    let t = trimmed_chars(line);
    let prefix = chars_of("data: ");
    proof {
        reveal_strlit("data: ");
    }
    if !crate::text::starts_with(&t, &prefix) {
        return SseLine::Skip;
    }
    let data = string_of(&t, 6, t.len());
    proof {
        assert(data@ =~= t@.skip(6));
    }
    if same_text(data.as_str(), "[DONE]") {
        SseLine::Done
    } else {
        SseLine::Data(data)
    }
}

#[verifier::external_type_specification]
#[verifier::external_body]
pub struct ExJsonValue(serde_json::Value);

/// The JSON value that `serde_json::from_str` reads from a text, `None`
/// when the text is not JSON.
pub uninterp spec fn json_parsed(text: Seq<char>) -> Option<serde_json::Value>;

/// The member of a JSON object under `key`; `None` when there is none or
/// the value is not an object.
pub uninterp spec fn json_member(v: serde_json::Value, key: Seq<char>) -> Option<serde_json::Value>;

/// The element of a JSON array at index `i`; `None` when there is none or
/// the value is not an array.
pub uninterp spec fn json_element(v: serde_json::Value, i: usize) -> Option<serde_json::Value>;

/// The text of a JSON string; `None` when the value is not a string.
pub uninterp spec fn json_text(v: serde_json::Value) -> Option<Seq<char>>;

/// `serde_json::from_str` into a `Value`.
#[verifier::external_body]
fn json_parse(text: &str) -> (r: Option<serde_json::Value>)
    ensures
        r == json_parsed(text@),
{
    serde_json::from_str::<serde_json::Value>(text).ok()
}

/// `Value::get` with a key.
#[verifier::external_body]
fn json_get_key(v: &serde_json::Value, key: &str) -> (r: Option<serde_json::Value>)
    ensures
        r == json_member(*v, key@),
{
    v.get(key).cloned()
}

/// `Value::get` with an index.
#[verifier::external_body]
fn json_get_index(v: &serde_json::Value, i: usize) -> (r: Option<serde_json::Value>)
    ensures
        r == json_element(*v, i),
{
    v.get(i).cloned()
}

/// `Value::as_str`.
#[verifier::external_body]
fn json_as_str(v: &serde_json::Value) -> (r: Option<String>)
    ensures
        match r {
            Some(t) => json_text(*v) == Some(t@),
            None => json_text(*v) is None,
        },
{
    v.as_str().map(|t| t.to_string())
}

/// The string at `choices[0].delta.content` of a JSON value, if there is
/// one there.
pub open spec fn delta_of(v: serde_json::Value) -> Option<Seq<char>> {
    match json_member(v, "choices"@) {
        Some(c) => match json_element(c, 0) {
            Some(e) => match json_member(e, "delta"@) {
                Some(d) => match json_member(d, "content"@) {
                    Some(x) => json_text(x),
                    None => None,
                },
                None => None,
            },
            None => None,
        },
        None => None,
    }
}

/// What a streamed payload says: `None` when it is not JSON, else the
/// string at `choices[0].delta.content`, if there is one.
pub open spec fn sse_delta_text(data: Seq<char>) -> Option<Option<Seq<char>>> {
    match json_parsed(data) {
        Some(v) => Some(delta_of(v)),
        None => None,
    }
}

/// The string at `choices[0].delta.content` of a JSON value, if any.
fn delta_in(v: &serde_json::Value) -> (r: Option<String>)
    ensures
        match r {
            Some(t) => delta_of(*v) == Some(t@),
            None => delta_of(*v) is None,
        },
{
    let choices = match json_get_key(v, "choices") {
        Some(c) => c,
        None => return None,
    };
    let first = match json_get_index(&choices, 0) {
        Some(e) => e,
        None => return None,
    };
    let delta = match json_get_key(&first, "delta") {
        Some(d) => d,
        None => return None,
    };
    let content = match json_get_key(&delta, "content") {
        Some(x) => x,
        None => return None,
    };
    json_as_str(&content)
}

/// What a streamed payload says (see `sse_delta_text`).
fn sse_delta(data: &str) -> (r: Option<Option<String>>)
    ensures
        match r {
            Some(Some(t)) => sse_delta_text(data@) == Some(Some(t@)),
            Some(None) => sse_delta_text(data@) == Some(None::<Seq<char>>),
            None => sse_delta_text(data@) is None,
        },
{
    match json_parse(data) {
        Some(v) => Some(delta_in(&v)),
        None => None,
    }
}

/// What to do with one line of a streamed answer.
#[derive(Debug, Clone, PartialEq, Eq)]
pub enum LineStep {
    /// Nothing.
    Ignore,
    /// Pass on this piece of text.
    Emit(String),
    /// The answer is complete.
    Finish,
}

/// What to do with one line of a streamed answer: end on `[DONE]`, pass on
/// the non-empty text of a JSON payload (a payload with no such text counts as
/// empty), ignore anything else.
pub open spec fn line_step_of(line: Seq<char>) -> Option<Seq<char>> {
    match sse_line_of(line) {
        Some(Some(d)) => match sse_delta_text(d) {
            Some(Some(t)) => if t.len() > 0 { Some(t) } else { None },
            _ => None,
        },
        _ => None,
    }
}

/// What to do with one line of a streamed answer (see `line_step_of`).
pub fn line_step(line: &str) -> (r: LineStep)
    ensures
        (r == LineStep::Finish) <==> sse_line_of(line@) == Some(None::<Seq<char>>),
        match r {
            LineStep::Emit(t) => line_step_of(line@) == Some(t@),
            LineStep::Ignore => sse_line_of(line@) != Some(None::<Seq<char>>) && line_step_of(line@) is None,
            LineStep::Finish => true,
        },
{
    match sse_line(line) {
        SseLine::Skip => LineStep::Ignore,
        SseLine::Done => LineStep::Finish,
        SseLine::Data(d) => match sse_delta(d.as_str()) {
            Some(Some(t)) => {
                if t.as_str().is_empty() { LineStep::Ignore } else { LineStep::Emit(t) }
            },
            Some(None) => LineStep::Ignore,
            None => LineStep::Ignore,
        },
    }
}

/// Whether a provider speaking `kind` can stream its answers: only the
/// OpenAI format does.
pub fn can_stream(kind: AdapterKind) -> (r: bool)
    ensures
        r == (kind == AdapterKind::OpenAI),
{
    match kind {
        AdapterKind::OpenAI => true,
        _ => false,
    }
}

/// What one network piece of a streamed answer gives: the texts to pass
/// on, in order, and whether the answer ended in it.
#[derive(Debug, Clone, PartialEq, Eq)]
pub struct PieceSteps {
    pub deltas: Vec<String>,
    pub done: bool,
}

/// The texts passed on, and whether the answer ends, for the lines of a
/// piece from line `i` on: each line's text (see `line_step_of`) up to the
/// first `[DONE]` line.
pub open spec fn lines_steps(lines: Seq<Seq<char>>, i: int) -> (Seq<Seq<char>>, bool)
    decreases lines.len() - i,
{
    if i < 0 || i >= lines.len() {
        (Seq::empty(), false)
    } else if sse_line_of(lines[i]) == Some(None::<Seq<char>>) {
        (Seq::empty(), true)
    } else {
        let rest = lines_steps(lines, i + 1);
        match line_step_of(lines[i]) {
            Some(t) => (seq![t] + rest.0, rest.1),
            None => rest,
        }
    }
}

/// What a network piece `text` of a streamed answer gives, line by line
/// (the lines being the pieces between `\n` characters; a `\r` before
/// one, or an empty last line, changes nothing here, as every line is
/// trimmed first).
pub fn stream_piece(text: &str) -> (r: PieceSteps)
    ensures
        r.deltas@.map_values(|d: String| d@) == lines_steps(split_on(text@, '\n'), 0).0,
        r.done == lines_steps(split_on(text@, '\n'), 0).1,
{
    let chars = chars_of(text);
    let lines = split_chars(&chars, '\n');
    let ghost all = split_on(text@, '\n');
    let mut deltas: Vec<String> = Vec::new();
    let mut i: usize = 0;
    while i < lines.len()
        invariant
            i <= lines@.len(),
            all == split_on(text@, '\n'),
            lines@.len() == all.len(),
            forall|j: int| 0 <= j < lines@.len() ==> #[trigger] lines@[j]@ == all[j],
            deltas@.map_values(|d: String| d@) + lines_steps(all, i as int).0 == lines_steps(all, 0).0,
            lines_steps(all, i as int).1 == lines_steps(all, 0).1,
        decreases lines.len() - i,
    {
        let line = string_of(&lines[i], 0, lines[i].len());
        proof {
            assert(line@ =~= all[i as int]);
        }
        match line_step(line.as_str()) {
            LineStep::Finish => {
                proof {
                    assert(sse_line_of(all[i as int]) == Some(None::<Seq<char>>));
                    assert(lines_steps(all, i as int).0 =~= Seq::<Seq<char>>::empty());
                    assert(deltas@.map_values(|d: String| d@) + Seq::<Seq<char>>::empty() =~= deltas@.map_values(|d: String| d@));
                }
                return PieceSteps { deltas, done: true };
            },
            LineStep::Emit(t) => {
                let ghost before = deltas@.map_values(|d: String| d@);
                deltas.push(t);
                proof {
                    assert(deltas@.map_values(|d: String| d@) =~= before.push(t@));
                    assert(seq![t@] + lines_steps(all, i + 1).0 =~= lines_steps(all, i as int).0);
                    assert(before.push(t@) + lines_steps(all, i + 1).0 =~= before + (seq![t@] + lines_steps(all, i + 1).0));
                }
            },
            LineStep::Ignore => {},
        }
        i += 1;
    }
    proof {
        assert(deltas@.map_values(|d: String| d@) + Seq::<Seq<char>>::empty() =~= deltas@.map_values(|d: String| d@));
    }
    PieceSteps { deltas, done: false }
}

/// One piece of a streamed reply.
#[derive(Debug, Clone, PartialEq, Eq)]
pub struct StreamChunk {
    pub delta: String,
    pub done: bool,
    pub emotion: Option<String>,
    pub source: Option<String>,
    pub latency_ms: Option<u64>,
}

/// A piece of text of a streamed reply.
pub fn delta_chunk(delta: String) -> (c: StreamChunk)
    ensures
        c.delta == delta,
        !c.done,
        c.emotion is None,
        c.source is None,
        c.latency_ms is None,
{
    StreamChunk { delta, done: false, emotion: None, source: None, latency_ms: None }
}

/// The last piece of a streamed reply from `provider`, after `latency_ms`.
pub fn done_chunk(provider: &str, latency_ms: u64) -> (c: StreamChunk)
    ensures
        c.delta@.len() == 0,
        c.done,
        c.emotion matches Some(e) && e@ == "neutral"@,
        c.source matches Some(s) && s@ == "llm:"@ + provider@,
        c.latency_ms == Some(latency_ms),
{
    StreamChunk {
        delta: String::new(),
        done: true,
        emotion: Some("neutral".to_string()),
        source: Some(join2("llm:", provider)),
        latency_ms: Some(latency_ms),
    }
}

/// The error of a streaming request to a provider whose format does not
/// stream.
pub fn streaming_unsupported() -> (e: LLMError)
    ensures
        e matches LLMError::InvalidResponse(m) && m@ == "Streaming only supported for OpenAI-compatible providers"@,
{
    LLMError::InvalidResponse("Streaming only supported for OpenAI-compatible providers".to_string())
}

} // verus!
