//! Azure OpenAI and AWS Bedrock: URLs, credentials, headers and signatures.
use llm_browser_testkit::auth::{
    command_finished, resolve_bearer_token, run_token_command, TokenCache, TokenStep,
};
use llm_browser_testkit::bedrock::{
    build_payload, build_user_content, chain_loaded, converse_request, converse_url,
    credential_fingerprint, parse_response, read_converse_reply, resolve_credentials,
    sign_request, split_data_url, static_headers, try_parse_response, validate_header, AwsKeys,
    BedrockCredentials, CredentialStep,
};
use llm_browser_testkit::llm::{chat_request, read_reply, LlmCallError};
use llm_browser_testkit::redact::ObservedRegistry;
use llm_browser_testkit::{AuthConfig, AuthMode, AwsConfig, LlmConfig, LlmResponse, Provider};
use serde_json::Value;

const OPENAI_RESPONSE: &str = r#"{
    "choices": [{"message": {"content": "hello agent"}}],
    "usage": {"prompt_tokens": 10, "completion_tokens": 4, "total_tokens": 14}
}"#;

const CONVERSE_RESPONSE: &str = r#"{
    "output": {"message": {"role": "assistant", "content": [{"text": "bedrock says hi"}]}},
    "usage": {"inputTokens": 7, "outputTokens": 3, "totalTokens": 10},
    "stopReason": "end_turn"
}"#;

fn json(text: &str) -> Value {
    serde_json::from_str(text).expect("valid JSON")
}

fn llm_config(url: &str, provider: Provider) -> LlmConfig {
    LlmConfig {
        url: url.to_owned(),
        model: "gpt-4o".to_owned(),
        timeout_secs: 30,
        max_attempts: 1,
        provider,
        ..LlmConfig::default()
    }
}

fn header<'h>(headers: &'h [(String, String)], name: &str) -> Option<&'h str> {
    headers
        .iter()
        .find(|(n, _)| n.eq_ignore_ascii_case(name))
        .map(|(_, v)| v.as_str())
}

#[test]
fn azure_uses_deployment_url_and_api_key_header() {
    let mut llm = llm_config("http://azure", Provider::Azure);
    llm.api_key = Some("sk-azure".to_owned());
    llm.deployment = Some("my-deployment".to_owned());

    let req = chat_request(&llm, llm.api_key.as_deref(), &Vec::new(), "sys", "user", None);
    assert_eq!(
        req.url,
        "http://azure/openai/deployments/my-deployment/chat/completions?api-version=2024-10-21"
    );
    assert_eq!(
        header(&req.headers, "api-key"),
        Some("sk-azure"),
        "classic azure api-key header"
    );
    assert!(header(&req.headers, "authorization").is_none());
    assert_eq!(req.body["model"], "gpt-4o");

    let resp = read_reply(200, OPENAI_RESPONSE.to_owned())
        .ok()
        .expect("azure chat succeeds");
    assert_eq!(resp.content, "hello agent");
    assert_eq!(resp.usage.prompt_tokens, 10);
}

#[test]
fn azure_deployment_defaults_to_model() {
    let mut llm = llm_config("http://azure", Provider::Azure);
    llm.api_key = Some("sk-azure".to_owned());
    let req = chat_request(&llm, llm.api_key.as_deref(), &Vec::new(), "sys", "user", None);
    assert_eq!(
        req.url,
        "http://azure/openai/deployments/gpt-4o/chat/completions?api-version=2024-10-21"
    );
    let resp = read_reply(200, OPENAI_RESPONSE.to_owned())
        .ok()
        .expect("azure chat succeeds");
    assert_eq!(resp.content, "hello agent");
}

#[test]
fn azure_honors_api_version_and_trailing_slash() {
    let mut llm = llm_config("http://azure/", Provider::Azure);
    llm.api_key = Some("sk-azure".to_owned());
    llm.api_version = Some("2025-01-01".to_owned());
    let req = chat_request(&llm, llm.api_key.as_deref(), &Vec::new(), "sys", "user", None);
    assert_eq!(
        req.url,
        "http://azure/openai/deployments/gpt-4o/chat/completions?api-version=2025-01-01",
        "explicit api-version wins"
    );
}

#[test]
fn token_command_runs_and_sets_bearer() {
    let mut llm = llm_config("http://llm", Provider::Openai);
    llm.auth = AuthConfig {
        mode: AuthMode::TokenCommand,
        token_command: Some("printf 'cli-token-1\\n'".to_owned()),
        ..AuthConfig::default()
    };
    let mut cache = TokenCache::new();
    let mut observed = ObservedRegistry::new();
    let token = match resolve_bearer_token(&llm.auth, None, &cache, 1_000) {
        Ok(TokenStep::Run { command, ttl, key }) => {
            assert_eq!(command, "printf 'cli-token-1\\n'");
            let printed = run_token_command(&mut observed, true, "exit status: 0", "cli-token-1\n", "");
            command_finished(&mut cache, 1_000, ttl, key, printed).expect("a token")
        }
        _ => panic!("expected a command"),
    };
    let req = chat_request(&llm, Some(token.as_str()), &Vec::new(), "sys", "user", None);
    assert_eq!(
        header(&req.headers, "authorization"),
        Some("Bearer cli-token-1")
    );
    let resp = read_reply(200, OPENAI_RESPONSE.to_owned())
        .ok()
        .expect("chat with command token succeeds");
    assert_eq!(resp.content, "hello agent");
}

#[test]
fn a_token_for_azure_is_a_bearer_token() {
    let mut llm = llm_config("http://azure", Provider::Azure);
    llm.auth.mode = AuthMode::EntraClientCredentials;
    llm.auth.api_key_header = Some("X-Api-Key".to_owned());
    let req = chat_request(&llm, Some("aad"), &Vec::new(), "sys", "user", None);
    assert_eq!(header(&req.headers, "authorization"), Some("Bearer aad"));
    assert!(header(&req.headers, "x-api-key").is_none());
}

#[test]
fn api_key_header_override_applies_to_openai() {
    let mut llm = llm_config("http://llm", Provider::Openai);
    llm.api_key = Some("sk-custom".to_owned());
    llm.auth = AuthConfig {
        api_key_header: Some("X-Api-Key".to_owned()),
        ..AuthConfig::default()
    };
    let req = chat_request(&llm, llm.api_key.as_deref(), &Vec::new(), "sys", "user", None);
    assert_eq!(
        header(&req.headers, "x-api-key"),
        Some("sk-custom"),
        "custom header receives the api key"
    );
    assert!(header(&req.headers, "authorization").is_none());
}

#[test]
fn static_and_command_headers_are_sent() {
    let mut llm = llm_config("http://llm", Provider::Openai);
    llm.headers
        .push(("X-Static".to_owned(), "static-value".to_owned()));
    let printed = vec![("X-From-Cmd".to_owned(), "cmd-value".to_owned())];
    let req = chat_request(&llm, None, &printed, "sys", "user", None);
    assert_eq!(header(&req.headers, "x-static"), Some("static-value"));
    assert_eq!(header(&req.headers, "x-from-cmd"), Some("cmd-value"));
    assert_eq!(
        header(&req.headers, "content-type"),
        Some("application/json")
    );
}

// ── Bedrock ───────────────────────────────────────────────────────────

fn bedrock_config() -> LlmConfig {
    LlmConfig {
        url: String::new(),
        model: "amazon.nova-pro-v1".to_owned(),
        timeout_secs: 10,
        temperature: json("0.2"),
        thinking: Some(true),
        max_attempts: 3,
        provider: Provider::Bedrock,
        ..LlmConfig::default()
    }
}

fn credentials(region: &str) -> BedrockCredentials {
    BedrockCredentials {
        access_key_id: "AKIATESTKEY".to_owned(),
        secret_access_key: "secrettestkey".to_owned(),
        session_token: None,
        region: region.to_owned(),
    }
}

#[test]
fn payload_text_only() {
    let payload = build_payload(&bedrock_config(), "you are a QA", "check the page", None);
    assert_eq!(payload["system"][0]["text"], "you are a QA");
    assert_eq!(payload["messages"][0]["role"], "user");
    assert_eq!(
        payload["messages"][0]["content"][0]["text"],
        "check the page"
    );
    assert_eq!(payload["inferenceConfig"]["maxTokens"], 4096);
    assert_eq!(payload["inferenceConfig"]["temperature"], 0.2);
    assert_eq!(payload["inferenceConfig"]["thinking"]["type"], "enabled");
    assert_eq!(payload["inferenceConfig"]["thinking"]["budgetTokens"], 1024);
}

#[test]
fn payload_no_system_when_empty() {
    let payload = build_payload(&bedrock_config(), "", "hi", None);
    assert!(payload.get("system").is_none());
}

#[test]
fn content_vision_image_block() {
    let content = build_user_content("inspect", Some("data:image/png;base64,AAAA"));
    assert_eq!(content[0]["text"], "inspect");
    // base64 "AAAA" decodes to 3 zero bytes, re-encoded identically.
    assert_eq!(content[1]["image"]["format"], "png");
    assert_eq!(content[1]["image"]["source"]["bytes"], "AAAA");
}

#[test]
fn data_url_split() {
    assert_eq!(
        split_data_url("data:image/jpeg;base64,SGVsbG8="),
        Some(("jpeg", String::from("SGVsbG8=")))
    );
    assert_eq!(
        split_data_url("data:image/png;base64,SGVsbG8="),
        Some(("png", String::from("SGVsbG8=")))
    );
    assert!(split_data_url("not-a-data-url").is_none());
    assert!(split_data_url("data:image/jpeg;charset=utf8,abc").is_none());
    assert!(split_data_url("data:image/jpeg;base64,%%%invalid%%%").is_none());
}

#[test]
fn response_parsed() {
    let value = json(
        r#"{"output": {"message": {"role": "assistant", "content": [{"text": "PASS"}]}},
            "usage": {"inputTokens": 10, "outputTokens": 3, "totalTokens": 13},
            "stopReason": "end_turn"}"#,
    );
    let resp: LlmResponse = parse_response(&value).expect("parses");
    assert_eq!(resp.content, "PASS");
    assert_eq!(resp.usage.prompt_tokens, 10);
    assert_eq!(resp.usage.completion_tokens, 3);
    assert_eq!(resp.usage.total_tokens, 13);
}

#[test]
fn response_missing_content_errors() {
    let value = json(r#"{ "output": { "message": { "content": [] } } }"#);
    assert!(parse_response(&value).is_err());
    assert!(matches!(try_parse_response(&value), Some(Err(_))));
}

#[test]
fn response_concatenates_text_blocks() {
    let value = json(
        r#"{"output": {"message": {"content": [{"text": "PA"}, {"text": "SS"}]}}, "usage": {}}"#,
    );
    let resp: LlmResponse = parse_response(&value).expect("parses");
    assert_eq!(resp.content, "PASS");
}

#[test]
fn a_quote_that_cannot_be_cut_is_not_made() {
    // The document's text is over 300 bytes long, and byte 300 lies within a
    // character.
    let value = json(&format!(r#"{{"note":"{}"}}"#, "é".repeat(200)));
    let inside = !value.to_string().is_char_boundary(300);
    assert_eq!(try_parse_response(&value).is_none(), inside);
    let shifted = json(&format!(r#"{{"notes":"{}"}}"#, "é".repeat(200)));
    assert_eq!(
        try_parse_response(&shifted).is_none(),
        !shifted.to_string().is_char_boundary(300)
    );
    assert_ne!(
        try_parse_response(&value).is_none(),
        try_parse_response(&shifted).is_none()
    );
}

#[test]
fn converse_replies() {
    let resp = read_converse_reply(200, CONVERSE_RESPONSE.to_owned())
        .ok()
        .expect("a reply");
    assert_eq!(resp.content, "bedrock says hi");
    assert_eq!(resp.usage.total_tokens, 10);
    assert!(matches!(
        read_converse_reply(403, "denied".to_owned()),
        Err(LlmCallError::Http { status: 403, .. })
    ));
    assert!(matches!(
        read_converse_reply(200, " ".to_owned()),
        Err(LlmCallError::EmptyBody { status: 200 })
    ));
    assert!(matches!(
        read_converse_reply(200, "<html>".to_owned()),
        Err(LlmCallError::InvalidJson { status: 200, .. })
    ));
}

#[test]
fn bedrock_signed_chat_request() {
    let mut llm = llm_config("http://bedrock.test", Provider::Bedrock);
    llm.model = "amazon.nova-pro-v1".to_owned();
    llm.temperature = json("0.2");
    llm.thinking = Some(true);
    llm.aws = AwsConfig {
        access_key_id: Some("AKIATESTKEY".to_owned()),
        secret_access_key: Some("secrettestkey".to_owned()),
        region: Some("eu-central-1".to_owned()),
        ..AwsConfig::default()
    };
    let creds = match resolve_credentials(&llm.aws, &None) {
        Ok(CredentialStep::Ready(c)) => c,
        _ => panic!("explicit keys need no chain"),
    };
    let headers = static_headers(&llm).ok().expect("valid headers");
    let req = converse_request(
        &llm,
        &creds,
        headers,
        "you are a QA",
        "check page",
        None,
        1_700_000_000,
    )
    .ok()
    .expect("signed");
    assert_eq!(req.url, "http://bedrock.test");
    let auth = header(&req.headers, "authorization").expect("signed request carries authorization");
    assert!(
        auth.starts_with("AWS4-HMAC-SHA256 Credential=AKIATESTKEY/20231114/eu-central-1/bedrock/aws4_request, "),
        "expected SigV4 signature, got: {auth}"
    );
    assert!(
        header(&req.headers, "x-amz-content-sha256").is_none(),
        "the payload checksum header is only sent when a service requires it (S3)"
    );
    assert_eq!(header(&req.headers, "x-amz-date"), Some("20231114T221320Z"));

    let body = json(&req.body);
    assert_eq!(body["system"][0]["text"], "you are a QA");
    assert_eq!(body["messages"][0]["role"], "user");
    assert_eq!(body["messages"][0]["content"][0]["text"], "check page");
    assert_eq!(body["inferenceConfig"]["temperature"], 0.2);
    assert_eq!(body["inferenceConfig"]["maxTokens"], 4096);
    assert_eq!(body["inferenceConfig"]["thinking"]["type"], "enabled");

    let resp = read_converse_reply(200, CONVERSE_RESPONSE.to_owned())
        .ok()
        .expect("bedrock chat succeeds");
    assert_eq!(resp.content, "bedrock says hi");
    assert_eq!(resp.usage.prompt_tokens, 7);
    assert_eq!(resp.usage.completion_tokens, 3);
    assert_eq!(resp.usage.total_tokens, 10);
}

#[test]
fn bedrock_missing_region_errors_clearly() {
    let aws = AwsConfig {
        access_key_id: Some("AKIATESTKEY".to_owned()),
        secret_access_key: Some("secrettestkey".to_owned()),
        ..AwsConfig::default()
    };
    let err = resolve_credentials(&aws, &None)
        .err()
        .expect("missing region must fail");
    assert!(err.contains("region"), "got: {err}");
}

#[test]
fn bedrock_custom_headers_and_commands_are_signed_and_sent() {
    let mut llm = bedrock_config();
    llm.url = "http://bedrock.test".to_owned();
    llm.headers
        .push(("X-Agent".to_owned(), "test-runner".to_owned()));
    let mut headers = static_headers(&llm).ok().expect("valid headers");
    headers.push(("X-From-Cmd".to_owned(), "signed-cmd".to_owned()));
    let req = converse_request(
        &llm,
        &credentials("us-east-1"),
        headers,
        "sys",
        "user",
        None,
        1_700_000_000,
    )
    .ok()
    .expect("signed");
    assert_eq!(header(&req.headers, "x-agent"), Some("test-runner"));
    assert_eq!(header(&req.headers, "x-from-cmd"), Some("signed-cmd"));
    let auth = header(&req.headers, "authorization").expect("signed");
    assert!(auth.contains("x-agent"), "got: {auth}");
    assert!(auth.contains("x-from-cmd"), "got: {auth}");
}

#[test]
fn the_signature_is_that_of_the_canonical_request() {
    let headers = vec![
        ("content-type".to_owned(), "application/json".to_owned()),
        ("accept".to_owned(), "application/json".to_owned()),
    ];
    let creds = BedrockCredentials {
        access_key_id: "AKIATESTKEY".to_owned(),
        secret_access_key: "secrettestkey".to_owned(),
        session_token: None,
        region: "us-east-1".to_owned(),
    };
    let added = sign_request(
        "http://bedrock.test/model/m/converse",
        "{}",
        &headers,
        &creds,
        1_700_000_000,
    )
    .ok()
    .expect("signed");
    assert_eq!(header(&added, "x-amz-date"), Some("20231114T221320Z"));
    assert_eq!(
        header(&added, "authorization"),
        Some("AWS4-HMAC-SHA256 Credential=AKIATESTKEY/20231114/us-east-1/bedrock/aws4_request, SignedHeaders=accept;content-type;host;x-amz-date, Signature=92034a9b5679fb6f703a095db64ee478fc78d3838b07556cc16ee47d04baaad9")
    );
}

#[test]
fn signatures_depend_on_the_body() {
    let mut llm = bedrock_config();
    llm.url = "http://bedrock.test".to_owned();
    let sign = |user: &str| {
        converse_request(
            &llm,
            &credentials("us-east-1"),
            static_headers(&llm).ok().expect("valid headers"),
            "sys",
            user,
            None,
            1_700_000_000,
        )
        .ok()
        .expect("signed")
        .headers
    };
    assert_eq!(sign("a"), sign("a"));
    assert_ne!(
        header(&sign("a"), "authorization"),
        header(&sign("b"), "authorization")
    );
}

#[test]
fn unsignable_requests_are_authentication_errors() {
    let mut llm = bedrock_config();
    llm.url = "not a url".to_owned();
    match converse_request(
        &llm,
        &credentials("us-east-1"),
        Vec::new(),
        "sys",
        "user",
        None,
        0,
    ) {
        Err(LlmCallError::Auth { message }) => {
            assert!(!message.is_empty());
        }
        _ => panic!("expected an authentication error"),
    }
}

#[test]
fn converse_urls() {
    let llm = bedrock_config();
    assert_eq!(
        converse_url(&llm, "eu-west-1"),
        "https://bedrock-runtime.eu-west-1.amazonaws.com/model/amazon.nova-pro-v1/converse"
    );
    let custom = LlmConfig {
        url: "http://proxy/x/".to_owned(),
        ..bedrock_config()
    };
    assert_eq!(converse_url(&custom, "eu-west-1"), "http://proxy/x");
}

#[test]
fn credentials_of_the_chain() {
    let aws = AwsConfig {
        profile: Some("dev".to_owned()),
        region: Some("us-east-1".to_owned()),
        ..AwsConfig::default()
    };
    match resolve_credentials(&aws, &None) {
        Ok(CredentialStep::LoadChain { profile, region }) => {
            assert_eq!(profile.as_deref(), Some("dev"));
            assert_eq!(region.as_deref(), Some("us-east-1"));
        }
        _ => panic!("expected the chain"),
    }
    let keys = || {
        Some(Ok(AwsKeys {
            access_key_id: "A".to_owned(),
            secret_access_key: "S".to_owned(),
            session_token: Some("T".to_owned()),
        }))
    };
    let creds = chain_loaded(&aws, keys(), None).expect("credentials");
    assert_eq!(creds.region, "us-east-1");
    assert_eq!(creds.session_token.as_deref(), Some("T"));
    let creds = chain_loaded(&aws, keys(), Some("eu-west-1".to_owned())).expect("credentials");
    assert_eq!(creds.region, "eu-west-1");
    assert!(chain_loaded(&aws, None, None).is_err());
    assert!(chain_loaded(&aws, Some(Err("expired".to_owned())), None).is_err());
    assert!(chain_loaded(&AwsConfig::default(), keys(), None).is_err());
    let slot = Some((credential_fingerprint(&aws), credentials("kept")));
    match resolve_credentials(&aws, &slot) {
        Ok(CredentialStep::Ready(c)) => assert_eq!(c.region, "kept"),
        _ => panic!("expected the cached credentials"),
    }
}

#[test]
fn header_texts_are_checked() {
    assert!(validate_header("X-Org", "acme").is_ok());
    match validate_header("X Org\n", "acme") {
        Err(LlmCallError::Auth { message }) => {
            assert_eq!(message, "invalid header name `X Org\n`");
        }
        _ => panic!("expected an authentication error"),
    }
    match validate_header("X-Org", "a\r\nb") {
        Err(LlmCallError::Auth { message }) => {
            assert_eq!(message, "invalid header value for `X-Org`");
        }
        _ => panic!("expected an authentication error"),
    }
    assert!(validate_header(" ", "acme").is_err());
    assert!(validate_header("X-Org", "").is_err());
    let llm = LlmConfig {
        headers: vec![("bad\n".to_owned(), "x".to_owned())],
        ..bedrock_config()
    };
    assert!(static_headers(&llm).is_err());
}
