//! Settings of the environment, chat requests, replies and retries.
use llm_browser_testkit::costs::extract_usage;
use llm_browser_testkit::llm::{
    build_messages, chat_request, default_llm_attempts, header_list, read_answer, read_reply,
    ChatNext, ChatRun, EnvSettings, LlmCallError,
};
use llm_browser_testkit::{
    base_url, browser_headless, llm_base_url, llm_model, parse_headers_env, truncate, LlmConfig,
    LlmResponse,
};
use serde_json::Value;

fn json(text: &str) -> Value {
    serde_json::from_str(text).expect("valid JSON")
}

fn env() -> EnvSettings {
    EnvSettings {
        base_url: None,
        llm_url: None,
        llm_model: None,
        llm_api_key: None,
        llm_headers: None,
        llm_call_attempts: None,
        headless: None,
    }
}

fn headers_env(raw: Option<&str>) -> Vec<(String, String)> {
    parse_headers_env(&EnvSettings {
        llm_headers: raw.map(str::to_owned),
        ..env()
    })
}

fn value<'h>(headers: &'h [(String, String)], name: &str) -> Option<&'h str> {
    headers
        .iter()
        .find(|(n, _)| n == name)
        .map(|(_, v)| v.as_str())
}

#[test]
fn test_truncate_short() {
    assert_eq!(truncate("hello", 10), "hello");
}

#[test]
fn test_truncate_long() {
    let result = truncate("hello world", 5);
    assert!(result.contains("<truncated>"));
    assert!(result.starts_with("hello"));
}

#[test]
fn test_truncate_exact_length() {
    assert_eq!(truncate("abcde", 5), "abcde");
}

#[test]
fn test_truncate_empty() {
    assert_eq!(truncate("", 5), "");
}

#[test]
fn test_truncate_unicode() {
    // The limit counts bytes: 'é' takes two of them.
    assert_eq!(truncate("héllo", 3), "hé...<truncated>");
    assert_eq!(truncate("hello", 5), "hello");
}

#[test]
fn test_parse_headers_env_empty() {
    assert!(headers_env(None).is_empty());
}

#[test]
fn test_parse_headers_env_valid() {
    let h = headers_env(Some(r#"{"X-Org":"acme","X-Version":"1"}"#));
    assert_eq!(value(&h, "X-Org"), Some("acme"));
    assert_eq!(value(&h, "X-Version"), Some("1"));
}

#[test]
fn test_parse_headers_env_invalid_json() {
    assert!(headers_env(Some("not-json")).is_empty());
}

#[test]
fn test_parse_headers_env_non_object() {
    assert!(headers_env(Some("[1, 2, 3]")).is_empty());
}

#[test]
fn test_parse_headers_env_nested_values_filtered() {
    let h = headers_env(Some(r#"{"str":"val","num":42,"bool":true}"#));
    assert_eq!(value(&h, "str"), Some("val"));
    assert_eq!(value(&h, "num"), None);
    assert_eq!(value(&h, "bool"), None);
}

#[test]
fn header_lists_hold_the_texts() {
    let h = header_list(&json(r#"{"a":"1","b":null,"c":["x"]}"#));
    assert_eq!(h, vec![("a".to_owned(), "1".to_owned())]);
    assert!(header_list(&Value::Null).is_empty());
}

#[test]
fn test_llm_config_from_env_defaults() {
    let config = LlmConfig::from_env(&env());
    assert_eq!(config.temperature, 0.0);
    assert!(config.thinking.is_none());
    assert!(config.model_params.is_empty());
}

#[test]
fn test_llm_config_has_default_model() {
    let config = LlmConfig::from_env(&env());
    assert!(!config.model.is_empty());
}

#[test]
fn config_from_env_takes_every_setting() {
    let config = LlmConfig::from_env(&EnvSettings {
        llm_url: Some("https://api.com/".to_owned()),
        llm_model: Some("gpt-4o".to_owned()),
        llm_api_key: Some("sk-1".to_owned()),
        llm_headers: Some(r#"{"X-Org":"acme"}"#.to_owned()),
        llm_call_attempts: Some("5".to_owned()),
        ..env()
    });
    assert_eq!(config.url, "https://api.com");
    assert_eq!(config.model, "gpt-4o");
    assert_eq!(config.api_key.as_deref(), Some("sk-1"));
    assert_eq!(value(&config.headers, "X-Org"), Some("acme"));
    assert_eq!(config.max_attempts, 5);
}

#[test]
fn attempts_default_to_three() {
    assert_eq!(default_llm_attempts(&env()), 3);
    let of = |v: &str| {
        default_llm_attempts(&EnvSettings {
            llm_call_attempts: Some(v.to_owned()),
            ..env()
        })
    };
    assert_eq!(of("7"), 7);
    assert_eq!(of("many"), 3);
}

#[test]
fn test_llm_base_url_default() {
    assert_eq!(llm_base_url(&env()), "http://localhost:8080");
}

#[test]
fn test_llm_base_url_custom() {
    let env = EnvSettings {
        llm_url: Some("https://custom.api.com/v1".to_owned()),
        ..env()
    };
    assert_eq!(llm_base_url(&env), "https://custom.api.com/v1");
}

#[test]
fn test_llm_base_url_trailing_slash() {
    let env = EnvSettings {
        llm_url: Some("https://api.com/".to_owned()),
        ..env()
    };
    assert_eq!(llm_base_url(&env), "https://api.com");
}

#[test]
fn test_llm_model_default() {
    assert_eq!(llm_model(&env()), "deepseek");
}

#[test]
fn test_llm_model_custom() {
    let env = EnvSettings {
        llm_model: Some("gpt-4o".to_owned()),
        ..env()
    };
    assert_eq!(llm_model(&env), "gpt-4o");
}

#[test]
fn test_browser_headless_default() {
    assert!(browser_headless(&env()));
}

#[test]
fn headless_can_be_switched_off() {
    for (setting, expected) in [("0", false), ("false", false), ("FALSE", false), ("1", true)] {
        let env = EnvSettings {
            headless: Some(setting.to_owned()),
            ..env()
        };
        assert_eq!(browser_headless(&env), expected, "{setting}");
    }
}

#[test]
fn app_url_defaults_to_localhost() {
    assert_eq!(base_url(&env()), "http://localhost:4200");
    let env = EnvSettings {
        base_url: Some("https://app".to_owned()),
        ..env()
    };
    assert_eq!(base_url(&env), "https://app");
}

#[test]
fn test_extract_usage_full() {
    let usage = extract_usage(&json(
        r#"{"usage": {"prompt_tokens": 100, "completion_tokens": 200, "total_tokens": 300}}"#,
    ));
    assert_eq!(usage.prompt_tokens, 100);
    assert_eq!(usage.completion_tokens, 200);
    assert_eq!(usage.total_tokens, 300);
}

#[test]
fn test_extract_usage_empty() {
    let usage = extract_usage(&json("{}"));
    assert_eq!(usage.prompt_tokens, 0);
    assert_eq!(usage.completion_tokens, 0);
    assert_eq!(usage.total_tokens, 0);
}

#[test]
fn test_extract_usage_partial() {
    let usage = extract_usage(&json(r#"{"usage": {"prompt_tokens": 50}}"#));
    assert_eq!(usage.prompt_tokens, 50);
    assert_eq!(usage.completion_tokens, 0);
    assert_eq!(usage.total_tokens, 0);
}

fn config() -> LlmConfig {
    LlmConfig {
        url: "http://llm".to_owned(),
        model: "mock-model".to_owned(),
        timeout_secs: 10,
        max_attempts: 3,
        ..LlmConfig::default()
    }
}

fn ok_body() -> &'static str {
    r#"{"choices": [{"message": {"content": "PASS"}}], "usage": {"prompt_tokens": 5, "completion_tokens": 1}}"#
}

/// The outcome of a call whose attempts get these replies, and how long it
/// waited between them.
fn call(replies: &[(u16, &str)]) -> (Result<LlmResponse, String>, Vec<u64>) {
    let llm = config();
    let mut run = ChatRun::start(&llm).ok().expect("attempts are allowed");
    let mut waits = Vec::new();
    for (status, body) in replies {
        match run.attempted(&llm.url, read_reply(*status, (*body).to_owned())) {
            ChatNext::Answer(resp) => return (Ok(resp), waits),
            ChatNext::Retry(ms) => waits.push(ms),
            ChatNext::GiveUp(message) => return (Err(message), waits),
        }
    }
    panic!("the call asked for more replies");
}

#[test]
fn only_an_empty_200_is_a_warm_up() {
    assert!(matches!(
        read_reply(200, String::new()),
        Err(LlmCallError::EmptyBody { status: 200 })
    ));
    assert!(matches!(
        read_reply(200, " \n".to_owned()),
        Err(LlmCallError::InvalidJson { status: 200, .. })
    ));
    let error = read_reply(204, String::new()).err().expect("an error");
    assert!(matches!(
        error,
        LlmCallError::InvalidJson { status: 204, .. }
    ));
    assert!(!error.is_retryable());
}

#[test]
fn test_success_path() {
    let (outcome, waits) = call(&[(200, ok_body())]);
    let resp = outcome.expect("chat should succeed");
    assert_eq!(resp.content, "PASS");
    assert_eq!(resp.usage.prompt_tokens, 5);
    assert!(waits.is_empty());
}

#[test]
fn test_http_error_message_includes_status_and_snippet() {
    let html = "<html><body>Bad Gateway — upstream offline</body></html>";
    let (outcome, waits) = call(&[(502, html), (502, html), (502, html)]);
    let err = outcome.expect_err("502 should fail");
    assert!(err.contains("HTTP 502"), "err: {err}");
    assert!(err.contains("Bad Gateway"), "err: {err}");
    assert!(err.contains("attempt"), "err: {err}");
    assert_eq!(
        err,
        format!("LLM call failed after 3 attempt(s) (endpoint http://llm): LLM endpoint returned HTTP 502: {html}")
    );
    assert_eq!(waits, vec![500, 1000]);
}

#[test]
fn test_non_json_body_reported() {
    let body = "<html>rate limit html</html>";
    let (outcome, _) = call(&[(200, body), (200, body), (200, body)]);
    let err = outcome.expect_err("non-JSON 200 should fail");
    assert!(err.contains("non-JSON"), "err: {err}");
    assert!(err.contains("HTTP 200"), "err: {err}");
    assert!(err.contains("rate limit html"), "err: {err}");
}

#[test]
fn test_missing_content_reported() {
    let body = r#"{"choices": [{"message": {"role": "assistant"}}]}"#;
    let (outcome, _) = call(&[(200, body), (200, body), (200, body)]);
    let err = outcome.expect_err("missing content should fail");
    assert!(err.contains("choices[0].message.content"), "err: {err}");
}

#[test]
fn test_client_error_fails_fast() {
    let (outcome, waits) = call(&[(401, "unauthorized")]);
    let err = outcome.expect_err("401 should fail");
    assert!(err.contains("HTTP 401"), "err: {err}");
    // Deterministic client errors are not retried — only 1 attempt.
    assert!(err.contains("1 attempt"), "err: {err}");
    assert!(waits.is_empty());
}

#[test]
fn test_transient_then_success_recovers() {
    let (outcome, waits) = call(&[(429, "slow down"), (429, "slow down"), (200, ok_body())]);
    assert_eq!(outcome.expect("retry should recover").content, "PASS");
    assert_eq!(waits, vec![500, 1000]);
}

#[test]
fn test_empty_200_is_transient_and_recovers() {
    let (outcome, _) = call(&[(200, ""), (200, ""), (200, ok_body())]);
    assert_eq!(
        outcome.expect("empty-200 retry should recover").content,
        "PASS"
    );
}

#[test]
fn test_empty_200_message_names_gateway_warmup() {
    let (outcome, _) = call(&[(200, ""), (200, ""), (200, "")]);
    let err = outcome.expect_err("empty 200 should fail after all attempts");
    assert!(err.contains("HTTP 200"), "err: {err}");
    assert!(err.contains("empty response"), "err: {err}");
    assert!(err.contains("warm-up"), "err: {err}");
    // Retried like a transient failure, not failed fast.
    assert!(err.contains("3 attempt"), "err: {err}");
}

#[test]
fn test_request_payload_shape() {
    let request = chat_request(&config(), None, &Vec::new(), "sys", "user", None);
    assert_eq!(request.url, "http://llm/v1/chat/completions");
    assert_eq!(request.body["model"], "mock-model");
    assert_eq!(
        request.body["messages"],
        json(r#"[{"role": "system", "content": "sys"}, {"role": "user", "content": "user"}]"#)
    );
}

#[test]
fn model_params_win_over_the_rest_of_the_body() {
    let llm = LlmConfig {
        model_params: vec![
            ("temperature".to_owned(), json("0.9")),
            ("max_tokens".to_owned(), json("16")),
        ],
        ..LlmConfig::default()
    };
    let body = chat_request(&llm, None, &Vec::new(), "sys", "user", None).body;
    assert_eq!(body["temperature"], json("0.9"));
    assert_eq!(body["max_tokens"], json("16"));
}

#[test]
fn model_params_and_thinking_are_sent() {
    let llm = LlmConfig {
        temperature: json("0.7"),
        thinking: Some(true),
        model_params: vec![("effort".to_owned(), json("\"high\""))],
        ..config()
    };
    let body = chat_request(&llm, None, &Vec::new(), "sys", "user", None).body;
    assert_eq!(body["temperature"], 0.7);
    assert_eq!(body["effort"], "high");
    let plain = chat_request(&config(), None, &Vec::new(), "sys", "user", None).body;
    assert_eq!(plain["temperature"], 0.0);
    assert!(plain.get("effort").is_none());
}

#[test]
fn test_vision_chat_sends_image_part() {
    let body = chat_request(
        &config(),
        None,
        &Vec::new(),
        "sys",
        "inspect this",
        Some("data:image/jpeg;base64,/9j/4AAQSkZJRg=="),
    )
    .body;
    let user_content = &body["messages"][1]["content"];
    assert!(user_content.is_array(), "user content must be a part array");
    let parts = user_content.as_array().expect("parts");
    assert_eq!(parts.len(), 2, "text part + image part");
    assert_eq!(parts[0]["type"], "text");
    assert_eq!(parts[0]["text"], "inspect this");
    assert_eq!(parts[1]["type"], "image_url");
    let url = parts[1]["image_url"]["url"].as_str().expect("a URL");
    assert!(
        url.starts_with("data:image/jpeg;base64,"),
        "data URL prefix, got {url:?}"
    );
    assert!(url.len() > 30, "payload carries base64 image data");

    let (outcome, _) = call(&[(200, ok_body())]);
    assert_eq!(outcome.expect("vision chat succeeds").content, "PASS");
}

#[test]
fn test_text_chat_keeps_string_content() {
    let body = chat_request(&config(), None, &Vec::new(), "sys", "check", None).body;
    assert_eq!(body["messages"][1]["content"], "check");
    assert_eq!(build_messages("sys", "check", None), body["messages"]);
}

#[test]
fn errors_as_messages_and_whether_they_are_retried() {
    let cases = [
        (
            LlmCallError::Transport {
                message: "refused".to_owned(),
            },
            "LLM HTTP request failed: refused",
            true,
        ),
        (
            LlmCallError::Auth {
                message: "no key".to_owned(),
            },
            "LLM authentication failed: no key",
            false,
        ),
        (
            LlmCallError::Http {
                status: 404,
                body: "nope".to_owned(),
            },
            "LLM endpoint returned HTTP 404: nope",
            false,
        ),
        (
            LlmCallError::Http {
                status: 408,
                body: String::new(),
            },
            "LLM endpoint returned HTTP 408: ",
            true,
        ),
        (
            LlmCallError::EmptyBody { status: 200 },
            "LLM endpoint returned HTTP 200 with an empty response (gateway warm-up?)",
            true,
        ),
        (
            LlmCallError::EmptyBody { status: 204 },
            "LLM endpoint returned HTTP 204 with an empty response (gateway warm-up?)",
            false,
        ),
        (
            LlmCallError::InvalidJson {
                status: 200,
                detail: "eof".to_owned(),
                body: "{".to_owned(),
            },
            "LLM endpoint returned HTTP 200 with non-JSON body (eof): {",
            true,
        ),
        (
            LlmCallError::InvalidJson {
                status: 201,
                detail: "eof".to_owned(),
                body: "{".to_owned(),
            },
            "LLM endpoint returned HTTP 201 with non-JSON body (eof): {",
            false,
        ),
        (
            LlmCallError::MissingContent {
                json: "{}".to_owned(),
            },
            "LLM response missing choices[0].message.content: {}",
            true,
        ),
    ];
    for (error, message, retried) in cases {
        assert_eq!(error.to_text(), message);
        assert_eq!(error.is_retryable(), retried, "{message}");
    }
}

#[test]
fn quoted_bodies_are_cut() {
    let error = LlmCallError::Http {
        status: 500,
        body: "x".repeat(400),
    };
    assert_eq!(
        error.to_text(),
        format!(
            "LLM endpoint returned HTTP 500: {}...<truncated>",
            "x".repeat(300)
        )
    );
}

#[test]
fn no_attempt_allowed_fails_at_once() {
    let llm = LlmConfig {
        max_attempts: 0,
        ..config()
    };
    assert_eq!(
        ChatRun::start(&llm).err(),
        Some("LLM call failed after 0 attempt(s) (endpoint http://llm): LLM call failed".to_owned())
    );
}

#[test]
fn an_answer_document_is_read() {
    let resp = read_answer(&json(ok_body())).ok().expect("an answer");
    assert_eq!(resp.content, "PASS");
    assert_eq!(resp.usage.completion_tokens, 1);
}
