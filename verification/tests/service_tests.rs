use loro::config::{Config, ModelConfig};
use loro::errors::LoroError;
use loro::models::{ChatCompletionRequest, Message};
use loro::service::{
    build_first_chunk_payload, choose_quick_response, compose_stream, error_response_parts,
    event_payload, extract_small_model_content, large_model_error, large_model_request_plan,
    run_retry_schedule, small_model_request_plan, transport_error_payload, FrameDecoder,
    LoroService, RetryDecision, RetryState, StreamComposer, UpstreamDialect,
};
use loro::stats::Sample;

fn test_config() -> Config {
    Config {
        host: "127.0.0.1".to_string(),
        port: 3000,
        log_level: "info".to_string(),
        small_model: ModelConfig {
            api_key: "test-key-small".to_string(),
            base_url: "https://api.openai.com/v1".to_string(),
            model_name: "gpt-3.5-turbo".to_string(),
        },
        large_model: ModelConfig {
            api_key: "test-key-large".to_string(),
            base_url: "https://api.openai.com/v1".to_string(),
            model_name: "gpt-4".to_string(),
        },
        http_timeout_secs: 30,
        small_model_timeout_secs: 10,
        max_retries: 3,
        stats_max_entries: 1000,
    }
}

fn user_message(content: &str) -> Message {
    Message { role: "user".to_string(), content: content.to_string() }
}

#[test]
fn test_process_sse_line_static_returns_json_payload_only() {
    let line = "data: {\"choices\":[{\"delta\":{\"content\":\"Hello\"}}]}";
    let out = LoroService::process_sse_line_static(line, "rid", "model").unwrap();
    assert!(out.is_some());
    let payload = out.unwrap();
    // No SSE prefix: the boundary layer wraps payloads itself
    assert!(!payload.starts_with("data:"));
    // Must be valid JSON
    let v: serde_json::Value = serde_json::from_str(&payload).unwrap();
    assert!(v.is_object());
}

#[test]
fn test_process_ollama_line_static_parses_json_lines() {
    let line = r#"{"model":"qwen","created_at":"2024-01-01","message":{"role":"assistant","content":"你好"},"done":false}"#;
    let out = LoroService::process_ollama_line_static(line, "rid", "model").unwrap();
    assert!(out.is_some());
    let payload = out.unwrap();
    let v: serde_json::Value = serde_json::from_str(&payload).unwrap();
    assert_eq!(v["object"], "chat.completion.chunk");
}

#[test]
fn test_sse_line_carries_content_and_id() {
    let line = "data: {\"choices\":[{\"delta\":{\"role\":\"assistant\",\"content\":\"Hi!\"}}]}";
    let payload = LoroService::process_sse_line_static(line, "abc", "m1").unwrap().unwrap();
    let v: serde_json::Value = serde_json::from_str(&payload).unwrap();
    assert_eq!(v["id"], "chatcmpl-abc");
    assert_eq!(v["model"], "m1");
    assert_eq!(v["choices"][0]["delta"]["content"], "Hi!");
    assert_eq!(v["choices"][0]["delta"]["role"], "assistant");
}

#[test]
fn test_sse_line_message_form_is_accepted() {
    // The non-streaming small-model response reuses this path
    let line = "data: {\"choices\":[{\"message\":{\"content\":\"World\"}}]}";
    let payload = LoroService::process_sse_line_static(line, "rid", "m").unwrap().unwrap();
    let v: serde_json::Value = serde_json::from_str(&payload).unwrap();
    assert_eq!(v["choices"][0]["delta"]["content"], "World");
}

#[test]
fn test_sse_finish_reason_without_content_emits_terminal_chunk() {
    let line = "data: {\"choices\":[{\"delta\":{},\"finish_reason\":\"stop\"}]}";
    let payload = LoroService::process_sse_line_static(line, "rid", "m").unwrap().unwrap();
    let v: serde_json::Value = serde_json::from_str(&payload).unwrap();
    assert_eq!(v["choices"][0]["finish_reason"], "stop");
    assert!(v["choices"][0]["delta"].get("content").is_none());
}

#[test]
fn test_sse_ignored_lines() {
    for line in [
        "data: ",
        ": comment line",
        "event: error",
        "",
        "random text",
        "data: {\"choices\":[]}",
    ] {
        let out = LoroService::process_sse_line_static(line, "rid", "m").unwrap();
        assert!(out.is_none(), "line {:?} should yield nothing", line);
    }
}

#[test]
fn test_decoder_reassembles_split_line() {
    // Two fragments of one SSE line yield exactly one chunk with the joined
    // content, identical to delivering the whole line at once
    let mut d = FrameDecoder::new(
        UpstreamDialect::OpenAICompatible,
        "rid".to_string(),
        "m".to_string(),
    );
    let part1 = "data: {\"choices\":[{\"delta\":{\"content\":\"Hel";
    let part2 = "lo\"}}]}\n\n";
    let out1 = d.feed(part1, 1700000000);
    assert!(out1.is_empty());
    let out2 = d.feed(part2, 1700000000);
    assert_eq!(out2.len(), 1);
    let v: serde_json::Value = serde_json::from_str(&out2[0]).unwrap();
    assert_eq!(v["choices"][0]["delta"]["content"], "Hello");

    let mut whole = FrameDecoder::new(
        UpstreamDialect::OpenAICompatible,
        "rid".to_string(),
        "m".to_string(),
    );
    let out_whole = whole.feed("data: {\"choices\":[{\"delta\":{\"content\":\"Hello\"}}]}\n\n", 1700000000);
    assert_eq!(out_whole.len(), 1);
    assert_eq!(out_whole[0], out2[0]);
}

#[test]
fn test_decoder_done_marks_completion_and_malformed_is_skipped() {
    let mut d = FrameDecoder::new(
        UpstreamDialect::OpenAICompatible,
        "rid".to_string(),
        "m".to_string(),
    );
    // A malformed frame yields no chunk and no error
    let out = d.feed("data: {malformed\n", 1700000000);
    assert!(out.is_empty());
    assert!(!d.done);
    // [DONE] yields no chunk and marks completion
    let out = d.feed("data: [DONE]\n", 1700000000);
    assert!(out.is_empty());
    assert!(d.done);
    // Nothing is emitted after completion
    let out = d.feed("data: {\"choices\":[{\"delta\":{\"content\":\"late\"}}]}\n", 1700000000);
    assert!(out.is_empty());
}

#[test]
fn test_decoder_ndjson_lines() {
    let mut d = FrameDecoder::new(
        UpstreamDialect::LocalNDJSON,
        "rid".to_string(),
        "m".to_string(),
    );
    let out = d.feed(
        "{\"message\":{\"role\":\"assistant\",\"content\":\"你\"},\"done\":false}\n{\"message\":{\"content\":\"好\"},\"done\":false}\n",
        1700000000,
    );
    assert_eq!(out.len(), 2);
    let v: serde_json::Value = serde_json::from_str(&out[0]).unwrap();
    assert_eq!(v["choices"][0]["delta"]["content"], "你");
    // Empty content is no chunk; malformed NDJSON is skipped
    let out = d.feed("{\"message\":{\"content\":\"\"},\"done\":true}\nnot json\n", 1700000000);
    assert!(out.is_empty());
}

#[test]
fn test_quick_fallback_greeting_phrases() {
    // With no small-model reply the fallback always comes from the greeting
    // set for a greeting message, each phrase within six code points
    let greeting_set = ["你好！", "嗨！", "您好，", "我在，"];
    let messages = vec![user_message("你好")];
    for _ in 0..50 {
        let phrase = choose_quick_response(&messages, None).unwrap();
        assert!(greeting_set.contains(&phrase.as_str()), "unexpected phrase {}", phrase);
        assert!(phrase.chars().count() <= 6);
    }
}

#[test]
fn test_quick_response_accepts_short_reply() {
    let messages = vec![user_message("你好")];
    let reply = choose_quick_response(&messages, Some("好的，".to_string())).unwrap();
    assert_eq!(reply, "好的，");
}

#[test]
fn test_quick_response_rejects_long_or_busy_reply() {
    let greeting_set = ["你好！", "嗨！", "您好，", "我在，"];
    let messages = vec![user_message("你好")];
    // Too long: falls back
    let reply = choose_quick_response(&messages, Some("这个回答太长了吧".to_string())).unwrap();
    assert!(greeting_set.contains(&reply.as_str()));
    // Too much punctuation: falls back
    let reply = choose_quick_response(&messages, Some("嗯，好。".to_string())).unwrap();
    assert!(greeting_set.contains(&reply.as_str()));
}

#[test]
fn test_quick_response_empty_messages_is_an_error() {
    let result = choose_quick_response(&vec![], None);
    assert!(result.is_err());
}

#[test]
fn test_retry_exhaustion_invocation_count() {
    // An operation that always fails is invoked exactly max_retries + 1 times
    for max_retries in 0..=10u32 {
        let outcomes = vec![false; max_retries as usize + 1];
        let (invocations, success) = run_retry_schedule(&outcomes, max_retries);
        assert_eq!(invocations, max_retries + 1);
        assert!(!success);
    }
}

#[test]
fn test_retry_stops_at_first_success() {
    let outcomes = vec![false, false, true, false];
    let (invocations, success) = run_retry_schedule(&outcomes, 3);
    assert_eq!(invocations, 3);
    assert!(success);
}

#[test]
fn test_retry_backoff_is_quadratic() {
    let mut state = RetryState::new(3);
    state.begin_attempt();
    assert_eq!(state.after_failure(), RetryDecision::Retry { delay_ms: 100 });
    state.begin_attempt();
    assert_eq!(state.after_failure(), RetryDecision::Retry { delay_ms: 400 });
    state.begin_attempt();
    assert_eq!(state.after_failure(), RetryDecision::Retry { delay_ms: 900 });
    state.begin_attempt();
    assert_eq!(state.after_failure(), RetryDecision::GiveUp);
}

#[test]
fn test_small_model_request_plan_openai() {
    let config = test_config();
    let (endpoint, body, auth) = small_model_request_plan(&config, "你好");
    assert_eq!(endpoint, "https://api.openai.com/v1/chat/completions");
    assert_eq!(auth.as_deref(), Some("Bearer test-key-small"));
    let v: serde_json::Value = serde_json::from_str(&body).unwrap();
    assert_eq!(v["model"], "gpt-3.5-turbo");
    assert_eq!(v["stream"], false);
    assert_eq!(v["max_tokens"], 10);
    assert_eq!(v["messages"][0]["role"], "system");
    assert_eq!(v["messages"][1]["role"], "user");
    assert_eq!(v["messages"][1]["content"], "你好");
}

#[test]
fn test_small_model_request_plan_local() {
    let mut config = test_config();
    config.small_model.base_url = "http://localhost:11434".to_string();
    config.small_model.api_key = "none".to_string();
    let (endpoint, body, auth) = small_model_request_plan(&config, "hi");
    assert_eq!(endpoint, "http://localhost:11434/api/chat");
    assert!(auth.is_none());
    let v: serde_json::Value = serde_json::from_str(&body).unwrap();
    assert_eq!(v["stream"], false);
    assert_eq!(v["keep_alive"], "10m");
    assert_eq!(v["options"]["num_predict"], 3);
    assert_eq!(v["messages"][1]["content"], "hi");
}

#[test]
fn test_large_model_request_plan_openai() {
    let config = test_config();
    let request = ChatCompletionRequest {
        model: "m".to_string(),
        messages: vec![user_message("tell me a story")],
        max_tokens: None,
        temperature_milli: 700,
        stream: true,
        stop: None,
        disable_quick_response: false,
    };
    let (endpoint, body, auth) =
        large_model_request_plan(&config, &request, Some("好的，".to_string()));
    assert_eq!(endpoint, "https://api.openai.com/v1/chat/completions");
    assert_eq!(auth.as_deref(), Some("Bearer test-key-large"));
    let v: serde_json::Value = serde_json::from_str(&body).unwrap();
    // The body carries the configured model, a prepended system prompt,
    // streaming on, the default token budget and the prefix
    assert_eq!(v["model"], "gpt-4");
    assert_eq!(v["stream"], true);
    assert_eq!(v["max_tokens"], 150);
    assert_eq!(v["messages"][0]["role"], "system");
    assert_eq!(v["messages"][1]["content"], "tell me a story");
    assert_eq!(v["extra_body"]["prefix"], "好的，");
}

#[test]
fn test_large_model_request_plan_local_has_no_auth() {
    let mut config = test_config();
    config.large_model.base_url = "http://127.0.0.1:11434".to_string();
    let request = ChatCompletionRequest {
        model: "m".to_string(),
        messages: vec![user_message("hi there")],
        max_tokens: Some(64),
        temperature_milli: 0,
        stream: true,
        stop: None,
        disable_quick_response: false,
    };
    let (endpoint, body, auth) = large_model_request_plan(&config, &request, None);
    assert_eq!(endpoint, "http://127.0.0.1:11434/api/chat");
    assert!(auth.is_none());
    let v: serde_json::Value = serde_json::from_str(&body).unwrap();
    assert_eq!(v["stream"], true);
    assert_eq!(v["keep_alive"], "10m");
}

#[test]
fn test_extract_small_model_content() {
    let body = "{\"choices\":[{\"message\":{\"role\":\"assistant\",\"content\":\"  好的， \"}}]}";
    let content = extract_small_model_content(UpstreamDialect::OpenAICompatible, body).unwrap();
    assert_eq!(content, "好的，");

    let body = "{\"message\":{\"role\":\"assistant\",\"content\":\"嗯，\"},\"done\":true}";
    let content = extract_small_model_content(UpstreamDialect::LocalNDJSON, body).unwrap();
    assert_eq!(content, "嗯，");

    let err = extract_small_model_content(UpstreamDialect::OpenAICompatible, "not json");
    assert!(matches!(err, Err(LoroError::JsonParse(_))));
    let err = extract_small_model_content(UpstreamDialect::OpenAICompatible, "{\"choices\":[]}");
    assert!(matches!(err, Err(LoroError::Internal(_))));
}

#[test]
fn test_transport_error_payload_is_terminal_apology() {
    let payload = transport_error_payload("rid", "m").unwrap();
    let v: serde_json::Value = serde_json::from_str(&payload).unwrap();
    assert_eq!(v["choices"][0]["finish_reason"], "stop");
    assert_eq!(v["choices"][0]["delta"]["content"], " [抱歉，出现了问题]");
}

#[test]
fn test_event_payload_marks_errors_inline() {
    let ok = event_payload(Ok("{}".to_string()));
    assert_eq!(ok, "{}");
    let err = event_payload(Err(LoroError::Timeout { timeout_secs: 5 }));
    assert_eq!(err, "[ERROR: HTTP request timeout: 5s]");
}

#[test]
fn test_error_response_parts_statuses() {
    let (status, body) = error_response_parts(&LoroError::Timeout { timeout_secs: 30 });
    assert_eq!(status, 408);
    let v: serde_json::Value = serde_json::from_str(&body).unwrap();
    assert_eq!(v["error"]["type"], "timeout_error");
    assert_eq!(v["error"]["message"], "Request timeout after 30s");

    let (status, body) = error_response_parts(&LoroError::ApiError {
        provider: "large".to_string(),
        status: 503,
        message: "overloaded".to_string(),
    });
    assert_eq!(status, 502);
    let v: serde_json::Value = serde_json::from_str(&body).unwrap();
    assert_eq!(v["error"]["code"], "upstream_error");
    assert_eq!(v["error"]["message"], "API error from large: overloaded");

    let (status, body) = error_response_parts(&LoroError::Validation("bad".to_string()));
    assert_eq!(status, 400);
    let v: serde_json::Value = serde_json::from_str(&body).unwrap();
    assert_eq!(v["error"]["code"], "validation_failed");

    let (status, body) = error_response_parts(&LoroError::Internal("x".to_string()));
    assert_eq!(status, 500);
    let v: serde_json::Value = serde_json::from_str(&body).unwrap();
    assert_eq!(v["error"]["message"], "Internal server error");
}

#[test]
fn test_error_predicates() {
    let timeout_error = LoroError::Timeout { timeout_secs: 30 };
    assert!(timeout_error.is_timeout());
    assert!(!timeout_error.is_api_error());
    assert!(!timeout_error.is_validation_error());

    let api_error = LoroError::ApiError {
        provider: "test".to_string(),
        status: 500,
        message: "Internal error".to_string(),
    };
    assert!(api_error.is_api_error());
    assert!(!api_error.is_timeout());

    let validation_error = LoroError::Validation("Invalid input".to_string());
    assert!(validation_error.is_validation_error());
    assert!(!validation_error.is_timeout());
}

#[test]
fn test_end_to_end_quick_path_scenario() {
    // request {model:"m", messages:[{role:"user",content:"hi"}],
    // disable_quick_response:false}
    let request = ChatCompletionRequest {
        model: "m".to_string(),
        messages: vec![user_message("hi")],
        max_tokens: None,
        temperature_milli: 700,
        stream: true,
        stop: None,
        disable_quick_response: false,
    };
    assert!(request.validate().is_ok());
    assert!(!request.disable_quick_response);

    // Quick response, synthesized because the small model "fails"
    let quick = choose_quick_response(&request.messages, None).unwrap();
    assert!(!quick.is_empty());

    // Synthetic first chunk
    let first = build_first_chunk_payload("rid", &request.model, &quick).unwrap();

    // The large-model stream, decoded
    let mut decoder = FrameDecoder::new(
        UpstreamDialect::OpenAICompatible,
        "rid".to_string(),
        "m".to_string(),
    );
    let mut items: Vec<Result<String, LoroError>> = Vec::new();
    for payload in decoder.feed(
        "data: {\"choices\":[{\"delta\":{\"content\":\"Hello\"}}]}\n\ndata: [DONE]\n\n",
        1700000000,
    ) {
        items.push(Ok(payload));
    }
    let events = compose_stream(Some(first), items);

    // First frame: non-empty assistant delta content
    let v: serde_json::Value = serde_json::from_str(&events[0]).unwrap();
    assert_eq!(v["choices"][0]["delta"]["role"], "assistant");
    let content = v["choices"][0]["delta"]["content"].as_str().unwrap();
    assert!(!content.is_empty());
    // Then >= 0 large-model frames, then the terminal sentinel
    assert!(events.len() >= 2);
    assert_eq!(events.last().unwrap(), "[DONE]");

    // The stats bucket records exactly one quick-mode request
    let mut service = LoroService::new(test_config());
    service.record_quick_request(
        Sample::Finite(120),
        Sample::Finite(900),
        Sample::Finite(780),
    );
    let metrics = service.get_metrics();
    assert_eq!(metrics.quick_response_mode.total_requests, 1);
    assert_eq!(metrics.direct_mode.total_requests, 0);
    assert_eq!(metrics.quick_mode_requests, 1);
}

#[test]
fn test_metrics_improvement_comparison() {
    let mut service = LoroService::new(test_config());
    service.record_quick_request(Sample::Finite(100), Sample::Finite(500), Sample::Finite(400));
    service.record_direct_request(Sample::Finite(700), Sample::Finite(700));
    let metrics = service.get_metrics();
    assert_eq!(metrics.avg_first_response_improvement_ms, 600);
    service.reset_metrics();
    let metrics = service.get_metrics();
    assert_eq!(metrics.quick_mode_requests, 0);
    assert_eq!(metrics.direct_mode_requests, 0);
    assert_eq!(metrics.avg_first_response_improvement_ms, 0);
}

#[test]
fn test_incremental_composer_matches_batch_composition() {
    // Driving the composer event by event yields exactly the sequence that
    // compose_stream states for the finished item list
    let items: Vec<Result<String, LoroError>> = vec![
        Ok("one".to_string()),
        Err(LoroError::Timeout { timeout_secs: 2 }),
        Ok("two".to_string()),
    ];
    let batch = compose_stream(Some("first".to_string()), items.clone());

    let mut incremental: Vec<String> = Vec::new();
    let mut composer = StreamComposer::new(Some("first".to_string()));
    if let Some(opening) = composer.opening() {
        incremental.push(opening);
    }
    for item in items {
        incremental.push(composer.on_item(item));
    }
    if let Some(done) = composer.terminal() {
        incremental.push(done);
    }
    assert_eq!(incremental, batch);

    // The first chunk and the sentinel come exactly once
    assert!(composer.opening().is_none());
    assert!(composer.terminal().is_none());
}

#[test]
fn test_large_model_error_text() {
    let e = large_model_error("502 Bad Gateway", "upstream unhappy");
    match e {
        LoroError::LargeModelFailed(m) => {
            assert_eq!(m, "Large model API error 502 Bad Gateway: upstream unhappy")
        }
        _ => panic!("wrong variant"),
    }
}

#[test]
fn test_error_messages_for_every_variant() {
    let cases: Vec<(LoroError, &str)> = vec![
        (LoroError::Config("x".to_string()), "Configuration error: x"),
        (LoroError::Timeout { timeout_secs: 7 }, "HTTP request timeout: 7s"),
        (
            LoroError::ApiError {
                provider: "p".to_string(),
                status: 500,
                message: "m".to_string(),
            },
            "API error from p: 500 - m",
        ),
        (LoroError::JsonParse("x".to_string()), "JSON parsing error: x"),
        (LoroError::HttpClient("x".to_string()), "HTTP client error: x"),
        (LoroError::Validation("x".to_string()), "Validation error: x"),
        (LoroError::SmallModelFailed("x".to_string()), "Small model failed: x"),
        (LoroError::LargeModelFailed("x".to_string()), "Large model failed: x"),
        (LoroError::StreamProcessing("x".to_string()), "Stream processing error: x"),
        (LoroError::Internal("x".to_string()), "Internal error: x"),
    ];
    for (e, expected) in cases {
        assert_eq!(e.message(), expected);
    }
}

#[test]
fn test_decoder_keeps_incomplete_tail_buffered() {
    let mut d = FrameDecoder::new(
        UpstreamDialect::OpenAICompatible,
        "rid".to_string(),
        "m".to_string(),
    );
    let out = d.feed("data: {\"choices\":[{\"delta\":{\"content\":\"a\"}}]}\npartial", 1);
    assert_eq!(out.len(), 1);
    let tail: String = d.buffer.iter().collect();
    assert_eq!(tail, "partial");
    // The tail joins the next delivery
    let out = d.feed(" line is ignored\n", 1);
    assert!(out.is_empty());
    assert!(d.buffer.is_empty());
}

#[test]
fn test_json_escaping_survives_round_trip() {
    // Content with quotes, backslashes and control characters comes back
    // unchanged through the emitted JSON
    let tricky = "a\"b\\c\nd\te\u{1}f";
    let line = serde_json::to_string(&serde_json::Value::String(tricky.to_string()))
        .map(|s| format!("data: {{\"choices\":[{{\"delta\":{{\"content\":{}}}}}]}}", s))
        .unwrap();
    let payload = LoroService::process_sse_line_static(&line, "rid", "m").unwrap().unwrap();
    let v: serde_json::Value = serde_json::from_str(&payload).unwrap();
    assert_eq!(v["choices"][0]["delta"]["content"], tricky);
}

#[test]
fn test_dialect_selection() {
    assert_eq!(
        UpstreamDialect::from_base_url("http://localhost:11434"),
        UpstreamDialect::LocalNDJSON
    );
    assert_eq!(
        UpstreamDialect::from_base_url("https://api.openai.com/v1"),
        UpstreamDialect::OpenAICompatible
    );
}
