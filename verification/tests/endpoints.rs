//! Endpoint registry and routing.
use llm_browser_testkit::endpoints::{EndpointRegistry, ResolvedEndpoint, TaskType};
use llm_browser_testkit::llm::EnvSettings;
use llm_browser_testkit::scenario::{EndpointConfig, EndpointType, PricingConfig};
use llm_browser_testkit::LlmConfig;

fn env() -> EnvSettings {
    EnvSettings {
        base_url: None,
        llm_url: None,
        llm_model: None,
        llm_api_key: None,
        llm_headers: None,
        llm_call_attempts: None,
        headless: None,
    }
}

fn registry(endpoints: Vec<(&str, EndpointConfig)>) -> EndpointRegistry {
    let named = endpoints
        .into_iter()
        .map(|(n, e)| (n.to_owned(), e))
        .collect();
    EndpointRegistry::from_config(&named, None, &env())
}

fn llm(url: &str) -> EndpointConfig {
    EndpointConfig {
        endpoint_type: EndpointType::Llm,
        url: Some(url.into()),
        ..Default::default()
    }
}

#[test]
fn test_task_type_as_str() {
    assert_eq!(TaskType::Targeting.as_str(), "targeting");
    assert_eq!(TaskType::Assertion.as_str(), "assertion");
}

#[test]
fn test_registry_empty_config() {
    let registry = registry(vec![]);
    assert_eq!(registry.len(), 1);
    let ep = registry.get("default").expect("the default endpoint");
    assert_eq!(ep.endpoint_type, EndpointType::Llm);
    assert!(!registry.is_empty());
}

#[test]
fn test_registry_resolve_by_name() {
    let registry = registry(vec![(
        "vision",
        EndpointConfig {
            model: Some("gpt-4o".into()),
            ..llm("https://api.openai.com")
        },
    )]);
    let ep = registry.get("vision");
    assert!(ep.is_some());
    assert_eq!(ep.expect("an endpoint").model.as_deref(), Some("gpt-4o"));
}

#[test]
fn test_resolve_for_task_with_default() {
    let registry = registry(vec![(
        "main",
        EndpointConfig {
            model: Some("deepseek".into()),
            default_for: vec!["targeting".to_owned()],
            ..llm("http://localhost:8080")
        },
    )]);
    let ep = registry.resolve_for_task(TaskType::Targeting);
    assert_eq!(ep.name, "main");
}

#[test]
fn test_resolve_explicit_overrides_task() {
    let registry = registry(vec![
        (
            "default",
            EndpointConfig {
                default_for: vec!["targeting".to_owned()],
                ..llm("http://default")
            },
        ),
        ("fast", llm("http://fast")),
    ]);
    let ep = registry.resolve(Some("fast"), TaskType::Targeting);
    assert_eq!(ep.name, "fast");
}

#[test]
fn test_resolve_chain_follows_fallbacks() {
    let registry = registry(vec![
        (
            "default",
            EndpointConfig {
                default_for: vec!["targeting".to_owned(), "assertion".to_owned()],
                fallbacks: vec!["pro".to_owned()],
                ..llm("http://default")
            },
        ),
        (
            "pro",
            EndpointConfig {
                model: Some("gpt-4.1".into()),
                ..llm("http://pro")
            },
        ),
    ]);
    let chain = registry.resolve_chain(None, TaskType::Assertion);
    assert_eq!(chain.len(), 2);
    assert_eq!(chain[0].name, "default");
    assert_eq!(chain[1].name, "pro");
}

#[test]
fn test_resolve_chain_skips_non_llm_and_cycles() {
    let registry = registry(vec![
        (
            "default",
            EndpointConfig {
                default_for: vec!["assertion".to_owned()],
                fallbacks: vec!["mcp1".to_owned(), "pro".to_owned()],
                ..llm("http://default")
            },
        ),
        // mcp1 is not an LLM endpoint — must be skipped in the chain.
        (
            "mcp1",
            EndpointConfig {
                endpoint_type: EndpointType::Mcp,
                command: Some("npx".into()),
                ..Default::default()
            },
        ),
        // Cycle: pro -> default must terminate.
        (
            "pro",
            EndpointConfig {
                fallbacks: vec!["default".to_owned()],
                ..llm("http://pro")
            },
        ),
    ]);
    let chain = registry.resolve_chain(None, TaskType::Assertion);
    assert_eq!(chain.len(), 2);
    assert_eq!(chain[0].name, "default");
    assert_eq!(chain[1].name, "pro");
}

#[test]
fn test_resolve_chain_max_attempts_default() {
    let registry = registry(vec![(
        "default",
        EndpointConfig {
            max_attempts: Some(7),
            default_for: vec!["assertion".to_owned()],
            ..llm("http://default")
        },
    )]);
    let ep = registry.resolve_chain(None, TaskType::Assertion);
    assert_eq!(ep[0].max_attempts, 7);
}

#[test]
fn test_default_llm_has_env_values() {
    let ep = ResolvedEndpoint::default_llm(&env());
    assert_eq!(ep.endpoint_type, EndpointType::Llm);
    assert!(ep.model.is_some());
    assert!(!ep.url.is_empty());
}

#[test]
fn test_vision_endpoint_resolves_for_assertion() {
    let registry = registry(vec![(
        "vision",
        EndpointConfig {
            model: Some("gpt-4o".to_owned()),
            vision: true,
            ..llm("http://vision")
        },
    )]);
    assert!(registry.resolve(Some("vision"), TaskType::Assertion).vision);
}

#[test]
fn without_endpoints_the_given_llm_is_used() {
    let given = LlmConfig {
        url: "http://given".to_owned(),
        model: "m".to_owned(),
        max_attempts: 4,
        ..LlmConfig::default()
    };
    let registry = EndpointRegistry::from_config(&Vec::new(), Some(&given), &env());
    let ep = registry.resolve(None, TaskType::Targeting);
    assert_eq!(ep.name, "default");
    assert_eq!(ep.url, "http://given");
    assert_eq!(ep.model.as_deref(), Some("m"));
    assert_eq!(ep.max_attempts, 4);
}

#[test]
fn fallbacks_of_fallbacks_are_tried_in_order() {
    let registry = registry(vec![
        (
            "a",
            EndpointConfig {
                default_for: vec!["assertion".to_owned()],
                fallbacks: vec!["b".to_owned(), "c".to_owned()],
                ..llm("http://a")
            },
        ),
        (
            "b",
            EndpointConfig {
                fallbacks: vec!["d".to_owned()],
                ..llm("http://b")
            },
        ),
        ("c", llm("http://c")),
        ("d", llm("http://d")),
    ]);
    let names: Vec<&str> = registry
        .resolve_chain(None, TaskType::Assertion)
        .iter()
        .map(|e| e.name.as_str())
        .collect();
    assert_eq!(names, vec!["a", "b", "c", "d"]);
}

#[test]
fn prices_and_headers_are_taken_over() {
    let registry = registry(vec![(
        "paid",
        EndpointConfig {
            headers: vec![("X-Org".to_owned(), "acme".to_owned())],
            pricing: Some(PricingConfig {
                input_per_1m_tokens: 150_000,
                output_per_1m_tokens: 600_000,
                per_call: 1,
            }),
            ..llm("http://paid/")
        },
    )]);
    let ep = registry.get("paid").expect("an endpoint");
    assert_eq!(ep.input_price_per_1m, 150_000);
    assert_eq!(ep.output_price_per_1m, 600_000);
    assert_eq!(ep.per_call_price, 1);
    assert_eq!(ep.headers, vec![("X-Org".to_owned(), "acme".to_owned())]);
    assert!(registry.get("other").is_none());
}
