//! Bearer tokens.
use llm_browser_testkit::auth::{
    cache_key, command_finished, command_header_value, effective_cmd_ttl, parse_token_response,
    resolve_bearer_token, response_received, run_token_command, token_source,
    try_parse_token_response, TokenCache, TokenSource, TokenStep,
};
use llm_browser_testkit::llm::LlmCallError;
use llm_browser_testkit::redact::ObservedRegistry;
use llm_browser_testkit::scenario::{AuthConfig, AuthMode};

/// Seconds since 1970.
const NOW: u64 = 1_700_000_000;

#[test]
fn token_command_returns_first_line() {
    let mut observed = ObservedRegistry::new();
    let token = run_token_command(&mut observed, true, "exit status: 0", "tok-123\nignored\n", "")
        .expect("command runs");
    assert_eq!(token, "tok-123");
}

#[test]
fn token_command_failure_reported() {
    let mut observed = ObservedRegistry::new();
    let err = run_token_command(&mut observed, false, "exit status: 3", "", "")
        .expect_err("failing command must error");
    assert!(err.contains("token command failed"), "got: {err}");
}

#[test]
fn token_command_empty_output_reported() {
    let mut observed = ObservedRegistry::new();
    let err = run_token_command(&mut observed, true, "exit status: 0", "", "")
        .expect_err("empty output must error");
    assert!(err.contains("empty stdout"), "got: {err}");
}

#[test]
fn a_printed_token_is_observed() {
    let mut observed = ObservedRegistry::new();
    run_token_command(&mut observed, true, "exit status: 0", "  secret-token-1  \n", "")
        .expect("command runs");
    assert_eq!(observed.iter(), &vec!["secret-token-1".to_owned()]);
}

#[test]
fn ttl_of_command_tokens() {
    let mut auth = AuthConfig::default();
    assert_eq!(effective_cmd_ttl(&auth), 300);
    auth.cache_ttl_secs = Some(0);
    assert_eq!(effective_cmd_ttl(&auth), 1);
    auth.cache_ttl_secs = Some(42);
    assert_eq!(effective_cmd_ttl(&auth), 42);
}

#[test]
fn keys_tell_parts_apart() {
    let ab_c = cache_key(&vec!["ab".to_owned(), "c".to_owned()]);
    let a_bc = cache_key(&vec!["a".to_owned(), "bc".to_owned()]);
    assert_ne!(ab_c, a_bc);
    assert_eq!(ab_c, cache_key(&vec!["ab".to_owned(), "c".to_owned()]));
}

#[test]
fn static_keys_need_no_work() {
    let auth = AuthConfig::default();
    let cache = TokenCache::new();
    match resolve_bearer_token(&auth, Some("sk-1"), &cache, 0) {
        Ok(TokenStep::Ready(Some(k))) => assert_eq!(k, "sk-1"),
        _ => panic!("expected the static key"),
    }
    assert!(matches!(
        resolve_bearer_token(&auth, None, &cache, 0),
        Ok(TokenStep::Ready(None))
    ));
}

#[test]
fn command_tokens_are_reused_until_they_expire() {
    let auth = AuthConfig {
        mode: AuthMode::TokenCommand,
        token_command: Some("print-token".to_owned()),
        cache_ttl_secs: Some(10),
        ..AuthConfig::default()
    };
    let mut cache = TokenCache::new();
    let (ttl, key) = match resolve_bearer_token(&auth, None, &cache, 1_000) {
        Ok(TokenStep::Run { command, ttl, key }) => {
            assert_eq!(command, "print-token");
            assert_eq!(ttl, 10);
            (ttl, key)
        }
        _ => panic!("expected a command"),
    };
    assert_eq!(
        command_finished(&mut cache, 1_000, ttl, key, Ok("tok".to_owned())),
        Ok("tok".to_owned())
    );
    match resolve_bearer_token(&auth, None, &cache, 10_999) {
        Ok(TokenStep::Ready(Some(t))) => assert_eq!(t, "tok"),
        _ => panic!("expected the cached token"),
    }
    assert!(matches!(
        resolve_bearer_token(&auth, None, &cache, 11_000),
        Ok(TokenStep::Run { .. })
    ));
}

#[test]
fn a_failed_command_leaves_the_cache_alone() {
    let mut cache = TokenCache::new();
    cache.store(5, 0, 60, 60, "kept");
    let r = command_finished(&mut cache, 0, 60, 5, Err("boom".to_owned()));
    assert_eq!(r, Err("boom".to_owned()));
    assert_eq!(cache.get(5, 1), Some("kept".to_owned()));
    cache.store(6, 0, 60, 60, "other");
    assert_eq!(cache.get(5, 1), Some("kept".to_owned()));
    assert_eq!(cache.get(7, 1), None);
}

#[test]
fn missing_settings_are_named() {
    let mut auth = AuthConfig {
        mode: AuthMode::TokenCommand,
        ..AuthConfig::default()
    };
    let missing = |auth: &AuthConfig| token_source(auth, None).err().expect("incomplete");
    assert_eq!(
        missing(&auth),
        "auth.mode = \"token-command\" requires auth.token_command"
    );
    auth.mode = AuthMode::EntraClientCredentials;
    assert_eq!(
        missing(&auth),
        "auth.mode = \"entra-client-credentials\" requires auth.tenant_id"
    );
    auth.tenant_id = Some("t".to_owned());
    assert_eq!(
        missing(&auth),
        "auth.mode = \"entra-client-credentials\" requires auth.client_id"
    );
    auth.client_id = Some("c".to_owned());
    assert_eq!(
        missing(&auth),
        "auth.mode = \"entra-client-credentials\" requires auth.client_secret"
    );
}

#[test]
fn entra_client_credentials_exchange_and_cache() {
    let auth = AuthConfig {
        mode: AuthMode::EntraClientCredentials,
        tenant_id: Some("tenant-123".to_owned()),
        client_id: Some("client-456".to_owned()),
        client_secret: Some("super-secret".to_owned()),
        token_url: Some("http://127.0.0.1:1234/".to_owned()),
        ..AuthConfig::default()
    };
    let mut cache = TokenCache::new();
    let mut observed = ObservedRegistry::new();
    let (request, key) = match resolve_bearer_token(&auth, None, &cache, 0) {
        Ok(TokenStep::Send { request, key }) => (request, key),
        _ => panic!("expected a request"),
    };
    assert!(request.post);
    assert_eq!(
        request.url,
        "http://127.0.0.1:1234/tenant-123/oauth2/v2.0/token"
    );
    let params: Vec<(&str, &str)> = request
        .params
        .iter()
        .map(|(n, v)| (n.as_str(), v.as_str()))
        .collect();
    assert_eq!(
        params,
        vec![
            ("grant_type", "client_credentials"),
            ("client_id", "client-456"),
            ("client_secret", "super-secret"),
            ("scope", "https://cognitiveservices.azure.com/.default"),
        ]
    );
    assert_eq!(request.timeout_secs, 30);
    let read = parse_token_response(
        &mut observed,
        200,
        r#"{"access_token":"entra-token-1","expires_in":3600,"token_type":"Bearer"}"#,
        &request.kind,
        NOW,
    );
    // A minute of safety is taken off the lifetime.
    assert_eq!(read, Ok((3540, "entra-token-1".to_owned())));
    assert_eq!(observed.iter(), &vec!["entra-token-1".to_owned()]);
    assert_eq!(
        response_received(&mut cache, 0, key, read),
        Ok("entra-token-1".to_owned())
    );
    match resolve_bearer_token(&auth, None, &cache, 3_539_999) {
        Ok(TokenStep::Ready(Some(t))) => assert_eq!(t, "entra-token-1"),
        _ => panic!("token is fetched once and cached"),
    }
    assert!(matches!(
        resolve_bearer_token(&auth, None, &cache, 3_540_000),
        Ok(TokenStep::Send { .. })
    ));
}

#[test]
fn entra_client_credentials_reports_server_errors() {
    let mut observed = ObservedRegistry::new();
    let err = parse_token_response(
        &mut observed,
        400,
        r#"{"error":"invalid_client","error_description":"bad secret"}"#,
        "Entra",
        NOW,
    )
    .expect_err("refused");
    assert!(err.contains("invalid_client"), "got: {err}");
    assert!(err.starts_with("Entra token endpoint returned HTTP 400: "), "got: {err}");
    assert!(observed.iter().is_empty());
}

#[test]
fn a_reply_without_a_token_is_an_error() {
    let mut observed = ObservedRegistry::new();
    assert_eq!(
        parse_token_response(&mut observed, 200, "{}", "Entra", NOW),
        Err("Entra token response missing access_token: {}".to_owned())
    );
    let err = parse_token_response(&mut observed, 200, "not json", "managed identity", NOW)
        .expect_err("no JSON");
    assert!(
        err.starts_with("managed identity token endpoint returned non-JSON ("),
        "got: {err}"
    );
    assert!(err.ends_with("): not json"), "got: {err}");
}

#[test]
fn only_refusals_have_to_be_quotable() {
    // Byte 300 falls into the middle of a character.
    let padding = format!("{}é", "a".repeat(299));
    let mut observed = ObservedRegistry::new();
    assert!(try_parse_token_response(&mut observed, 500, &padding, "Entra", NOW).is_none());
    assert!(observed.iter().is_empty());

    let head = r#"{"access_token":"long-token","x":""#;
    let body = format!("{head}{}é\"}}", "a".repeat(299 - head.len()));
    assert_eq!(
        try_parse_token_response(&mut observed, 200, &body, "Entra", NOW),
        Some(Ok((0, "long-token".to_owned())))
    );
    assert_eq!(observed.iter(), &vec!["long-token".to_owned()]);
    assert_eq!(
        try_parse_token_response(&mut observed, 200, "{}", "Entra", NOW),
        Some(Err(
            "Entra token response missing access_token: {}".to_owned()
        ))
    );
}

#[test]
fn reported_lifetimes() {
    let mut observed = ObservedRegistry::new();
    let mut ttl = |body: &str| {
        parse_token_response(&mut observed, 200, body, "Entra", NOW)
            .expect("a token")
            .0
    };
    assert_eq!(ttl(r#"{"access_token":"t"}"#), 0);
    assert_eq!(ttl(r#"{"access_token":"t","expires_in":90}"#), 60);
    assert_eq!(ttl(r#"{"access_token":"t","expires_in":120}"#), 60);
    // A point in time counts from now on.
    assert_eq!(ttl(r#"{"access_token":"t","expires_on":"1700003600"}"#), 3540);
    assert_eq!(ttl(r#"{"access_token":"t","expires_on":"1700000100"}"#), 60);
    assert_eq!(ttl(r#"{"access_token":"t","expires_on":"1000"}"#), 60);
    assert_eq!(ttl(r#"{"access_token":"t","expires_on":"soon"}"#), 0);
}

#[test]
fn entra_managed_identity_uses_imds() {
    let auth = AuthConfig {
        mode: AuthMode::EntraManagedIdentity,
        token_url: Some("http://127.0.0.1:1234".to_owned()),
        ..AuthConfig::default()
    };
    match token_source(&auth, None) {
        Ok(TokenSource::Endpoint { request, .. }) => {
            assert!(!request.post);
            assert_eq!(
                request.url,
                "http://127.0.0.1:1234/metadata/identity/oauth2/token"
            );
            assert_eq!(
                request.headers,
                vec![("Metadata".to_owned(), "true".to_owned())]
            );
            assert_eq!(
                request.params,
                vec![
                    ("api-version".to_owned(), "2018-02-01".to_owned()),
                    (
                        "resource".to_owned(),
                        "https://cognitiveservices.azure.com/".to_owned()
                    ),
                ]
            );
            assert_eq!(request.timeout_secs, 10);
        }
        _ => panic!("expected a request"),
    }
}

#[test]
fn header_commands_report_their_header() {
    assert_eq!(
        command_header_value("X-Token", Ok("abc".to_owned())).ok(),
        Some("abc".to_owned())
    );
    match command_header_value("X-Token", Err("boom".to_owned())) {
        Err(LlmCallError::Auth { message }) => {
            assert_eq!(message, "header command for `X-Token` failed: boom");
        }
        _ => panic!("expected an authentication error"),
    }
    match command_header_value("X-Token", Ok("  ".to_owned())) {
        Err(LlmCallError::Auth { message }) => {
            assert_eq!(message, "header command for `X-Token` produced an empty value");
        }
        _ => panic!("expected an authentication error"),
    }
}
