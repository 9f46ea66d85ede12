//! Redaction of secrets.
use llm_browser_testkit::events::{StepStatus, TestEvent};
use llm_browser_testkit::redact::{
    collect_secrets_from_scenario_config, collect_sensitive_header_values, observe_secret,
    ObservedRegistry, Redactor, MIN_SECRET_LEN, OBSERVED_CAP,
};
use llm_browser_testkit::scenario::{AuthConfig, AwsConfig, EndpointConfig, ScenarioConfig};

/// A redactor's view of a text when nothing was observed.
fn redact(r: &Redactor, input: &str) -> String {
    r.redact(&ObservedRegistry::new(), input)
}

fn pair(name: &str, value: &str) -> (String, String) {
    (name.to_owned(), value.to_owned())
}

#[test]
fn test_redact_exact_replacement() {
    let mut r = Redactor::new();
    r.add_secret("sk-secret-key", 0);
    assert_eq!(redact(&r, "Bearer sk-secret-key"), "Bearer [REDACTED]");
}

#[test]
fn test_redact_multiple_secrets() {
    let mut r = Redactor::new();
    r.add_secret("key-one", 0);
    r.add_secret("token-two", 0);
    let out = redact(&r, "key-one then token-two then key-one again");
    assert_eq!(out, "[REDACTED] then [REDACTED] then [REDACTED] again");
}

#[test]
fn test_redact_secret_mid_string() {
    let mut r = Redactor::new();
    r.add_secret("abc123", 0);
    assert_eq!(
        redact(&r, "https://app.example.com/login?token=abc123&next=/x"),
        "https://app.example.com/login?token=[REDACTED]&next=/x"
    );
}

#[test]
fn test_redact_empty_redactor_unchanged() {
    let r = Redactor::new();
    let input = "plain hello world 12345";
    assert_eq!(redact(&r, input), input);
}

#[test]
fn test_redact_empty_secret_ignored() {
    let mut r = Redactor::new();
    r.add_secret("", 0);
    assert_eq!(redact(&r, "a secret-leak here"), "a secret-leak here");
}

#[test]
fn test_length_guard_skips_short_config_secrets() {
    let cfg = ScenarioConfig {
        llm_api_key: Some("short".into()), // 5 chars < MIN_SECRET_LEN
        ..ScenarioConfig::default()
    };
    let mut r = Redactor::new();
    r.add_secret_values(collect_secrets_from_scenario_config(&cfg));
    assert!(r.is_empty());
    assert_eq!(redact(&r, "token short here"), "token short here");
}

#[test]
fn test_explicit_min_len_zero_always_applies() {
    let mut r = Redactor::new();
    r.add_secret("short", 0);
    assert!(!r.is_empty());
    assert_eq!(redact(&r, "token short here"), "token [REDACTED] here");
}

#[test]
fn test_collect_secrets_from_config() {
    let ep = EndpointConfig {
        api_key: Some("endpoint-key".to_owned()),
        headers: vec![pair("Authorization", "Bearer ep-bearer")],
        auth: AuthConfig {
            client_secret: Some("entra-secret".to_owned()),
            ..AuthConfig::default()
        },
        aws: AwsConfig {
            secret_access_key: Some("aws-secret".to_owned()),
            session_token: Some("aws-session".to_owned()),
            ..AwsConfig::default()
        },
        fallbacks: vec!["fallback".to_owned()],
        ..EndpointConfig::default()
    };
    let fallback = EndpointConfig {
        api_key: Some("fallback-key".to_owned()),
        ..EndpointConfig::default()
    };
    let cfg = ScenarioConfig {
        llm_api_key: Some("global-key".to_owned()),
        llm_headers: vec![
            pair("X-API-Key", "hdr-key-value"),
            pair("x-org", "acme"),
            pair("content-type", "application/json"),
        ],
        endpoints: vec![
            ("primary".to_owned(), ep),
            ("fallback".to_owned(), fallback),
        ],
        ..ScenarioConfig::default()
    };
    let secrets = collect_secrets_from_scenario_config(&cfg);
    for expected in [
        "global-key",
        "hdr-key-value",
        "endpoint-key",
        "Bearer ep-bearer",
        "entra-secret",
        "aws-secret",
        "aws-session",
        "fallback-key",
    ] {
        assert!(secrets.iter().any(|s| s == expected), "missing {expected}");
    }
    assert!(
        secrets
            .iter()
            .all(|s| s != "acme" && s != "application/json"),
        "innocuous header values must not be registered"
    );
}

#[test]
fn test_registry_observe_and_redact() {
    let mut observed = ObservedRegistry::new();
    observe_secret(&mut observed, "registry-token-123456");
    let r = Redactor::new();
    assert_eq!(
        r.redact(&observed, "error body: registry-token-123456"),
        "error body: [REDACTED]"
    );
}

#[test]
fn test_registry_deduplicates() {
    let mut observed = ObservedRegistry::new();
    observe_secret(&mut observed, "registry-dedup-abcdef");
    observe_secret(&mut observed, "registry-dedup-abcdef");
    let r = Redactor::new();
    assert_eq!(r.redact(&observed, "registry-dedup-abcdef"), "[REDACTED]");
    assert_eq!(observed.iter().len(), 1);
}

#[test]
fn test_registry_min_len_guard() {
    let mut observed = ObservedRegistry::new();
    observe_secret(&mut observed, "tiny");
    let r = Redactor::new();
    assert_eq!(r.redact(&observed, "token tiny here"), "token tiny here");
}

#[test]
fn test_registry_cap_drops_oldest() {
    let r = Redactor::new();
    let mut observed = ObservedRegistry::new();
    for i in 0..OBSERVED_CAP + 10 {
        observe_secret(&mut observed, &format!("registry-cap-secret-{i:03}"));
    }
    // The first 10 entries were evicted...
    assert_eq!(
        r.redact(&observed, "registry-cap-secret-000"),
        "registry-cap-secret-000"
    );
    // ...while the newest entries still redact.
    assert_eq!(r.redact(&observed, "registry-cap-secret-521"), "[REDACTED]");
}

#[test]
fn test_redact_event_step_finished() {
    let mut r = Redactor::new();
    r.add_secret("tok-query-secret", 0);
    let event = TestEvent::StepFinished {
        test: "login".into(),
        index: 0,
        label: "[navigate] /dashboard?token=tok-query-secret".into(),
        status: StepStatus::Failed,
        duration_ms: 100,
        message: "element not found at /x?token=tok-query-secret".into(),
        diagnostics: Some("url: /x?token=tok-query-secret".into()),
        screenshot: Some("artifacts/login.png".into()),
    };
    let redacted = r.redact_event(&ObservedRegistry::new(), &event);
    let TestEvent::StepFinished {
        label,
        message,
        diagnostics,
        screenshot,
        status,
        ..
    } = redacted
    else {
        panic!("expected step_finished");
    };
    assert_eq!(label, "[navigate] /dashboard?token=[REDACTED]");
    assert_eq!(message, "element not found at /x?token=[REDACTED]");
    assert_eq!(diagnostics.as_deref(), Some("url: /x?token=[REDACTED]"));
    assert_eq!(screenshot.as_deref(), Some("artifacts/login.png"));
    assert_eq!(status, StepStatus::Failed);
}

#[test]
fn test_redact_event_llm_call_error_with_registry_token() {
    let mut observed = ObservedRegistry::new();
    observe_secret(&mut observed, "runtime-token-987654");
    let mut r = Redactor::new();
    r.add_secret("sk-static-key", 0);
    let event = TestEvent::LlmCallFinished {
        test: "login".into(),
        index: 0,
        endpoint: "default".into(),
        model: "deepseek".into(),
        purpose: "targeting".into(),
        ok: false,
        duration_ms: 900,
        input_tokens: 0,
        output_tokens: 0,
        cost: 0,
        error: Some("HTTP 401: Bearer sk-static-key invalid (got runtime-token-987654)".into()),
    };
    let redacted = r.redact_event(&observed, &event);
    let TestEvent::LlmCallFinished { error, .. } = redacted else {
        panic!("expected llm_call_finished");
    };
    assert_eq!(
        error.as_deref(),
        Some("HTTP 401: Bearer [REDACTED] invalid (got [REDACTED])")
    );
}

#[test]
fn test_redact_event_preserves_non_string_fields() {
    let r = Redactor::new();
    let event = TestEvent::TestFinished {
        test: "t".into(),
        passed: 1,
        failed: 0,
        skipped: 0,
        duration_ms: 12,
        cost: 4_200_000_000,
        tokens: 42,
        calls: 1,
    };
    let redacted = r.redact_event(&ObservedRegistry::new(), &event);
    let TestEvent::TestFinished {
        test,
        passed,
        failed,
        duration_ms,
        cost,
        tokens,
        calls,
        ..
    } = redacted
    else {
        panic!("expected test_finished");
    };
    assert_eq!(test, "t");
    assert_eq!((passed, failed), (1, 0));
    assert_eq!(duration_ms, 12);
    assert_eq!(cost, 4_200_000_000);
    assert_eq!((tokens, calls), (42, 1));
}

#[test]
fn test_min_secret_len_constant_matches_guard() {
    let mut r = Redactor::new();
    r.add_secret_values(vec!["12345".to_owned(), "123456".to_owned()]);
    assert_eq!(r.secrets.len(), 1);
    assert_eq!(r.secrets[0], "123456");
    assert!(!r.is_empty());
    assert_eq!(MIN_SECRET_LEN, 6);
}

#[test]
fn redacting_twice_changes_nothing() {
    let mut r = Redactor::new();
    r.add_secret("aa-secret", 0);
    let mut observed = ObservedRegistry::new();
    observe_secret(&mut observed, "token-bb");
    let once = r.redact(&observed, "aa-secret and token-bb");
    assert_eq!(once, "[REDACTED] and [REDACTED]");
    assert_eq!(r.redact(&observed, &once), once);
}

#[test]
fn sensitive_headers_are_told_by_their_names() {
    let mut out = Vec::new();
    collect_sensitive_header_values(
        &vec![
            pair("Proxy-Authorization", "a"),
            pair("Accept", "b"),
            pair("X-Auth-Token", "c"),
            pair("Cookie", "d"),
            pair("My-Cookie", "e"),
        ],
        &mut out,
    );
    assert_eq!(out, vec!["a".to_owned(), "c".to_owned(), "d".to_owned()]);
}

#[test]
fn short_secrets_are_told_by_their_characters() {
    let mut redactor = Redactor::new();
    let mut observed = ObservedRegistry::new();
    redactor.add_secret_values(vec!["äöüäö".to_owned()]);
    observe_secret(&mut observed, "éèéèé");
    assert!(redactor.is_empty());
    assert!(observed.iter().is_empty());
    redactor.add_secret_values(vec!["äöüäöü".to_owned()]);
    observe_secret(&mut observed, "éèéèéè");
    assert_eq!(
        redactor.redact(&observed, "a äöüäöü b éèéèéè c äöüäö"),
        "a [REDACTED] b [REDACTED] c äöüäö"
    );
}
