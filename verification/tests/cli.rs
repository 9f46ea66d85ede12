//! The command line.
use llm_browser_testkit::cli::{
    apply_cli_overrides, color_mode, expand_viewport_matrix, matrix_summary, nonempty,
    parse_header, parse_model_param, print_scenario_header, RunOverrides,
};
use llm_browser_testkit::reporting::ColorMode;
use llm_browser_testkit::scenario::{
    BudgetDef, BudgetEnforcement, EndpointConfig, EndpointType, ScenarioConfig, TestGroup,
    TestStep, ViewportDef, ViewportMatrix,
};
use serde_json::Value;

fn text(s: &str) -> Option<String> {
    Some(s.to_owned())
}

fn none() -> RunOverrides {
    RunOverrides {
        base_url: None,
        llm_url: None,
        llm_model: None,
        llm_api_key: None,
        llm_fallback_url: None,
        llm_fallback_model: None,
        llm_fallback_api_key: None,
        llm_headers: Vec::new(),
        model_params: Vec::new(),
        headless: None,
        timeout: None,
        viewport_width: None,
        viewport_height: None,
        start_url: None,
        max_cost: None,
        max_tokens: None,
        budget_enforcement: None,
        agent_port: None,
        artifacts_dir: None,
        continue_on_failure: false,
    }
}

#[test]
fn headers_and_params_are_split() {
    assert_eq!(
        parse_header(" X-Org : acme:inc "),
        Ok(("X-Org".to_owned(), "acme:inc".to_owned()))
    );
    assert_eq!(
        parse_header("nothing"),
        Err("header must be 'Name:Value', got 'nothing'".to_owned())
    );
    assert_eq!(
        parse_model_param("effort = high"),
        Ok(("effort".to_owned(), Value::from("high")))
    );
    assert_eq!(
        parse_model_param("n=3"),
        Ok(("n".to_owned(), Value::from(3)))
    );
    assert_eq!(
        parse_model_param("on=true"),
        Ok(("on".to_owned(), Value::from(true)))
    );
    assert_eq!(
        parse_model_param("x"),
        Err("model param must be 'key=value', got 'x'".to_owned())
    );
}

#[test]
fn blank_settings_count_as_unset() {
    assert_eq!(nonempty(text(" ")), None);
    assert_eq!(nonempty(text("")), None);
    assert_eq!(nonempty(None), None);
    assert_eq!(nonempty(text(" x")), text(" x"));
}

#[test]
fn color_modes() {
    assert_eq!(color_mode("ALWAYS"), ColorMode::Always);
    assert_eq!(color_mode("force"), ColorMode::Always);
    assert_eq!(color_mode("never"), ColorMode::Never);
    assert_eq!(color_mode("none"), ColorMode::Never);
    assert_eq!(color_mode("auto"), ColorMode::Auto);
    assert_eq!(color_mode("?"), ColorMode::Auto);
}

#[test]
fn without_flags_the_scenario_counts_and_else_the_defaults() {
    let c = apply_cli_overrides(ScenarioConfig::default(), &none());
    assert_eq!(c.browser_headless, Some(true));
    assert_eq!(c.timeout_secs, Some(60));
    assert_eq!((c.viewport_width, c.viewport_height), (Some(1280), Some(720)));
    assert_eq!(c.start_url.as_deref(), Some("/dashboard"));
    assert!(c.endpoints.is_empty());
    let own = ScenarioConfig {
        browser_headless: Some(false),
        timeout_secs: Some(5),
        viewport_width: Some(320),
        start_url: text("/own"),
        base_url: text("http://own"),
        ..ScenarioConfig::default()
    };
    let c = apply_cli_overrides(own, &none());
    assert_eq!(c.browser_headless, Some(false));
    assert_eq!(c.timeout_secs, Some(5));
    assert_eq!(c.viewport_width, Some(320));
    assert_eq!(c.start_url.as_deref(), Some("/own"));
    assert_eq!(c.base_url.as_deref(), Some("http://own"));
}

#[test]
fn flags_override_the_scenario() {
    let own = ScenarioConfig {
        browser_headless: Some(false),
        timeout_secs: Some(500),
        viewport_width: Some(3200),
        start_url: text("/own"),
        base_url: text("http://own"),
        llm_headers: vec![
            ("X-A".to_owned(), "1".to_owned()),
            ("X-B".to_owned(), "2".to_owned()),
        ],
        ..ScenarioConfig::default()
    };
    let flags = RunOverrides {
        headless: Some(true),
        timeout: Some(30),
        viewport_width: Some(800),
        start_url: text("/flag"),
        base_url: text("http://flag"),
        llm_headers: vec![
            ("X-B".to_owned(), "3".to_owned()),
            ("X-C".to_owned(), "4".to_owned()),
        ],
        model_params: vec![("effort".to_owned(), Value::from("high"))],
        agent_port: Some(3100),
        artifacts_dir: text("out"),
        continue_on_failure: true,
        ..none()
    };
    let c = apply_cli_overrides(own, &flags);
    assert_eq!(c.browser_headless, Some(true));
    assert_eq!(c.timeout_secs, Some(30));
    assert_eq!(c.viewport_width, Some(800));
    assert_eq!(c.start_url.as_deref(), Some("/flag"));
    assert_eq!(c.base_url.as_deref(), Some("http://flag"));
    assert_eq!(
        c.llm_headers,
        vec![
            ("X-A".to_owned(), "1".to_owned()),
            ("X-B".to_owned(), "3".to_owned()),
            ("X-C".to_owned(), "4".to_owned()),
        ]
    );
    assert_eq!(
        c.model_params,
        vec![("effort".to_owned(), Value::from("high"))]
    );
    let server = c.a2a_server.expect("a server");
    assert!(server.enabled);
    assert_eq!(server.port, 3100);
    assert_eq!(c.artifacts_dir.as_deref(), Some("out"));
    assert!(c.continue_on_failure);
}

#[test]
fn a_fallback_url_makes_a_chain() {
    let flags = RunOverrides {
        llm_url: text("http://first"),
        llm_model: text("m"),
        llm_fallback_url: text("http://second"),
        llm_fallback_model: text(" "),
        llm_fallback_api_key: text("k2"),
        ..none()
    };
    let c = apply_cli_overrides(ScenarioConfig::default(), &flags);
    assert_eq!(c.endpoints.len(), 2);
    let (name, first) = &c.endpoints[0];
    assert_eq!(name, "default");
    assert_eq!(first.url.as_deref(), Some("http://first"));
    assert_eq!(first.model.as_deref(), Some("m"));
    assert_eq!(first.default_for, vec!["targeting", "assertion"]);
    assert_eq!(first.fallbacks, vec!["fallback"]);
    let (name, second) = &c.endpoints[1];
    assert_eq!(name, "fallback");
    assert_eq!(second.url.as_deref(), Some("http://second"));
    assert_eq!(second.model, None);
    assert_eq!(second.api_key.as_deref(), Some("k2"));
    // A declared table is left alone, and a blank URL is none.
    let declared = ScenarioConfig {
        endpoints: vec![("own".to_owned(), EndpointConfig::default())],
        ..ScenarioConfig::default()
    };
    assert_eq!(apply_cli_overrides(declared, &flags).endpoints.len(), 1);
    let blank = RunOverrides {
        llm_fallback_url: text(" "),
        ..none()
    };
    assert!(apply_cli_overrides(ScenarioConfig::default(), &blank)
        .endpoints
        .is_empty());
}

#[test]
fn headers_of_flags_reach_the_generated_endpoint() {
    let pair = |k: &str, v: &str| (k.to_owned(), v.to_owned());
    let config = ScenarioConfig {
        llm_headers: vec![pair("X-Org", "acme"), pair("X-Project", "qa")],
        ..ScenarioConfig::default()
    };
    let flags = RunOverrides {
        llm_headers: vec![pair("X-Org", "other"), pair("X-Team", "web")],
        llm_fallback_url: text("http://second"),
        ..none()
    };
    let c = apply_cli_overrides(config, &flags);
    let merged = vec![
        pair("X-Org", "other"),
        pair("X-Project", "qa"),
        pair("X-Team", "web"),
    ];
    assert_eq!(c.llm_headers, merged);
    assert_eq!(c.endpoints[0].1.headers, merged);
    assert!(c.endpoints[1].1.headers.is_empty());
}

#[test]
fn budget_flags() {
    let mut own = ScenarioConfig::default();
    own.budgets.global = Some(BudgetDef {
        max_cost: Some(1),
        max_tokens: Some(2),
        max_calls: Some(3),
        enforcement: None,
    });
    let flags = RunOverrides {
        max_cost: Some(10),
        budget_enforcement: text("Soft"),
        ..none()
    };
    let g = apply_cli_overrides(own, &flags)
        .budgets
        .global
        .expect("a budget");
    assert_eq!(
        (g.max_cost, g.max_tokens, g.max_calls, g.enforcement),
        (Some(10), Some(2), Some(3), Some(BudgetEnforcement::Soft))
    );
    assert!(apply_cli_overrides(ScenarioConfig::default(), &none())
        .budgets
        .global
        .is_none());
    let odd = RunOverrides {
        budget_enforcement: text("strict"),
        ..none()
    };
    let g = apply_cli_overrides(ScenarioConfig::default(), &odd)
        .budgets
        .global
        .expect("a budget");
    assert_eq!(g.enforcement, Some(BudgetEnforcement::Hard));
}

fn group(name: &str) -> TestGroup {
    TestGroup {
        name: name.to_owned(),
        start_url: None,
        auto_navigate: None,
        base_url: None,
        timeout_secs: None,
        browser_headless: None,
        viewport_width: None,
        viewport_height: None,
        budget: None,
        endpoint: None,
        steps: vec![TestStep::Navigate {
            url: "/x".to_owned(),
            wait_after_ms: Some(1),
        }],
    }
}

fn viewport(name: &str, width: u32, height: u32) -> ViewportDef {
    ViewportDef {
        name: name.to_owned(),
        width,
        height,
    }
}

#[test]
fn a_matrix_makes_one_variant_per_viewport() {
    let config = ScenarioConfig {
        viewport_matrix: Some(ViewportMatrix {
            viewports: vec![
                viewport("mobile", 390, 844),
                viewport("tablet", 768, 1024),
            ],
        }),
        ..ScenarioConfig::default()
    };
    let tests = expand_viewport_matrix(&config, vec![group("A"), group("B")]);
    let names: Vec<&str> = tests.iter().map(|t| t.name.as_str()).collect();
    assert_eq!(
        names,
        vec!["A — mobile", "A — tablet", "B — mobile", "B — tablet"]
    );
    assert_eq!(tests[3].viewport_width, Some(768));
    assert_eq!(tests[3].viewport_height, Some(1024));
    assert!(matches!(
        &tests[3].steps[0],
        TestStep::Navigate { url, wait_after_ms: Some(1) } if url == "/x"
    ));
    assert_eq!(
        matrix_summary(&config).as_deref(),
        Some("Viewport matrix: 2 variants per test (mobile=390x844, tablet=768x1024)")
    );
    let plain = ScenarioConfig::default();
    assert_eq!(expand_viewport_matrix(&plain, vec![group("A")]).len(), 1);
    assert_eq!(matrix_summary(&plain), None);
}

#[test]
fn the_header_of_a_run() {
    let mut config = apply_cli_overrides(
        ScenarioConfig::default(),
        &RunOverrides {
            max_cost: Some(5_500_000_000_000),
            max_tokens: Some(1000),
            llm_url: text("http://llm"),
            ..none()
        },
    );
    assert_eq!(
        print_scenario_header(&config, 2, 1),
        vec![
            "Artifacts: artifacts  |  Continue on failure: no (fail fast)",
            "Base URL: -",
            "Endpoints: 0 configured",
            "  (using default LLM: - @ http://llm)",
            "Browser: headless (1280x720)",
            "Start URL: /dashboard",
            "Tests: 2  Definitions: 1",
            "Budget (global): max $5.50",
            "Budget (global): max 1000 tokens",
        ]
    );
    config.endpoints = vec![
        (
            "main".to_owned(),
            EndpointConfig {
                url: text("http://main"),
                fallbacks: vec!["a".to_owned(), "b".to_owned()],
                ..EndpointConfig::default()
            },
        ),
        (
            "db".to_owned(),
            EndpointConfig {
                endpoint_type: EndpointType::Mcp,
                ..EndpointConfig::default()
            },
        ),
    ];
    config.browser_headless = Some(false);
    let lines = print_scenario_header(&config, 0, 0);
    assert_eq!(lines[2], "Endpoints: 2 configured");
    assert_eq!(lines[3], "  main: Llm @ http://main  ->  fallbacks: a, b");
    assert_eq!(lines[4], "  db: Mcp @ (subprocess)");
    assert_eq!(lines[5], "Browser: visible (1280x720)");
}
