use blaniel_npc::llm_flow::{
    delta_chunk, done_chunk, duration_string, endpoint_url, failure_error, line_step, model_reply, parse_u64,
    replace_text, sse_line, status_class, streaming_unsupported, transport_error, AdapterKind, LLMError, LineStep,
    RetryState, RetryStep, SseLine, StatusClass, MAX_BACKOFF_MS, MAX_RETRIES,
};

#[test]
fn decimal_parsing_follows_u64_from_str() {
    assert_eq!(parse_u64("0"), Some(0));
    assert_eq!(parse_u64("+42"), Some(42));
    assert_eq!(parse_u64("18446744073709551615"), Some(u64::MAX));
    assert_eq!(parse_u64("18446744073709551616"), None);
    assert_eq!(parse_u64(""), None);
    assert_eq!(parse_u64("+"), None);
    assert_eq!(parse_u64("-1"), None);
    assert_eq!(parse_u64(" 5"), None);
    assert_eq!(parse_u64("5s"), None);
}

#[test]
fn status_classes() {
    assert_eq!(status_class(200, None), StatusClass::Success);
    assert_eq!(status_class(299, Some("3")), StatusClass::Success);
    assert_eq!(status_class(429, Some("7")), StatusClass::TooManyRequests(Some(7)));
    assert_eq!(status_class(429, Some("soon")), StatusClass::TooManyRequests(None));
    assert_eq!(status_class(429, None), StatusClass::TooManyRequests(None));
    assert_eq!(status_class(500, None), StatusClass::Failed);
    assert_eq!(status_class(199, None), StatusClass::Failed);
}

#[test]
fn failure_body_is_cut_at_two_hundred_characters() {
    let long = "x".repeat(250);
    match failure_error(502, &long) {
        LLMError::RequestFailed(s, m) => {
            assert_eq!(s, 502);
            assert_eq!(m.chars().count(), 200);
        }
        other => panic!("unexpected {:?}", other),
    }
    assert_eq!(failure_error(400, "bad"), LLMError::RequestFailed(400, "bad".to_string()));
}

#[test]
fn transport_errors() {
    assert_eq!(transport_error(true, 30_000, "ignored".to_string()), LLMError::Timeout(30_000));
    assert_eq!(transport_error(false, 30_000, "refused".to_string()), LLMError::Request("refused".to_string()));
}

#[test]
fn error_messages_show_durations_as_std_does() {
    assert_eq!(duration_string(0), "0ns");
    assert_eq!(duration_string(250), "250ms");
    assert_eq!(duration_string(1500), "1.5s");
    assert_eq!(duration_string(30_000), "30s");
    assert_eq!(duration_string(1_005), "1.005s");
    assert_eq!(duration_string(2_050), "2.05s");
    assert_eq!(LLMError::Timeout(1500).message(), "Timeout after 1.5s");
    assert_eq!(LLMError::Timeout(30_000).message(), "Timeout after 30s");
    assert_eq!(LLMError::RateLimited(Some(5)).message(), "Rate limited: retry after Some(5s)");
    assert_eq!(LLMError::RateLimited(None).message(), "Rate limited: retry after None");
    assert_eq!(LLMError::RequestFailed(503, "down".to_string()).message(), "Request failed with status 503: down");
    assert_eq!(LLMError::EmptyResponse.message(), "No content in response");
    assert_eq!(LLMError::Unhealthy("x".to_string()).message(), "Provider unhealthy: x");
}

#[test]
fn replies_from_models() {
    let r = model_reply("openai", "Hi".to_string(), 42);
    assert_eq!(r.response, "Hi");
    assert_eq!(r.emotion, "neutral");
    assert_eq!(r.animation, "talk");
    assert_eq!(r.source, "llm:openai");
    assert_eq!(r.latency_ms, 42);
    assert_eq!(r.cached, Some(false));
}

#[test]
fn endpoints_per_format() {
    assert_eq!(endpoint_url(AdapterKind::OpenAI, "https://api.openai.com/v1", "gpt-4o"), "https://api.openai.com/v1/chat/completions");
    assert_eq!(endpoint_url(AdapterKind::Anthropic, "https://api.anthropic.com/v1", "sonnet"), "https://api.anthropic.com/v1/messages");
    assert_eq!(
        endpoint_url(AdapterKind::Gemini, "https://generativelanguage.googleapis.com/v1beta", "gemini-2.0-flash"),
        "https://generativelanguage.googleapis.com/v1beta/models/gemini-2.0-flash:generateContent"
    );
}

#[test]
fn replacing_every_occurrence() {
    assert_eq!(replace_text("a-b-c", "-", "+"), "a+b+c");
    assert_eq!(replace_text("aaa", "aa", "b"), "ba");
    assert_eq!(replace_text("abc", "x", "y"), "abc");
    assert_eq!(replace_text("", "x", "y"), "");
}

#[test]
fn retry_schedule_doubles_and_stops_after_three_retries() {
    let mut state = RetryState::new();
    assert_eq!(state.pause_before_attempt(), 0);
    assert_eq!(state.on_error(&LLMError::Request("boom".to_string())), RetryStep::Retry);
    assert_eq!(state.pause_before_attempt(), 100);
    assert_eq!(state.on_error(&LLMError::Timeout(10)), RetryStep::Retry);
    assert_eq!(state.pause_before_attempt(), 200);
    assert_eq!(state.on_error(&LLMError::EmptyResponse), RetryStep::Retry);
    assert_eq!(state.pause_before_attempt(), 400);
    assert_eq!(state.attempt(), MAX_RETRIES);
    assert_eq!(state.on_error(&LLMError::Request("again".to_string())), RetryStep::GiveUp);
}

#[test]
fn some_errors_are_never_retried() {
    let mut state = RetryState::new();
    assert_eq!(state.on_error(&LLMError::InvalidResponse("bad json".to_string())), RetryStep::GiveUp);
    assert_eq!(state.on_error(&LLMError::Unhealthy("off".to_string())), RetryStep::GiveUp);
    assert_eq!(state.on_error(&LLMError::RateLimited(None)), RetryStep::GiveUp);
    assert_eq!(state.on_error(&LLMError::RateLimited(Some(2))), RetryStep::WaitThenRetry(2));
    assert_eq!(state.attempt(), 1);
}

#[test]
fn backoff_is_capped() {
    let mut state = RetryState::new();
    let mut waits = Vec::new();
    for _ in 0..3 {
        state.on_error(&LLMError::EmptyResponse);
        waits.push(state.pause_before_attempt());
    }
    assert_eq!(waits, vec![100, 200, 400]);
    assert!(waits.iter().all(|w| *w <= MAX_BACKOFF_MS));
}

#[test]
fn server_sent_lines() {
    assert_eq!(sse_line("event: ping"), SseLine::Skip);
    assert_eq!(sse_line("  data: [DONE]  "), SseLine::Done);
    assert_eq!(sse_line("data: {}"), SseLine::Data("{}".to_string()));
    assert_eq!(line_step("data: [DONE]"), LineStep::Finish);
    assert_eq!(line_step(": keep-alive"), LineStep::Ignore);
    assert_eq!(
        line_step(r#"data: {"choices":[{"delta":{"content":"Hel"}}]}"#),
        LineStep::Emit("Hel".to_string())
    );
    assert_eq!(line_step(r#"data: {"choices":[{"delta":{}}]}"#), LineStep::Ignore);
    assert_eq!(line_step("data: not json"), LineStep::Ignore);
}

#[test]
fn stream_chunks() {
    let c = delta_chunk("Hi".to_string());
    assert_eq!(c.delta, "Hi");
    assert!(!c.done);
    assert!(c.source.is_none());
    let d = done_chunk("test", 150);
    assert!(d.done);
    assert_eq!(d.delta, "");
    assert_eq!(d.emotion.as_deref(), Some("neutral"));
    assert_eq!(d.source.as_deref(), Some("llm:test"));
    assert_eq!(d.latency_ms, Some(150));
    assert_eq!(
        streaming_unsupported(),
        LLMError::InvalidResponse("Streaming only supported for OpenAI-compatible providers".to_string())
    );
}
