//! Steps from their first action to their result.
use llm_browser_testkit::assertions::AssertNext;
use llm_browser_testkit::costs::{LlmResponse, LlmUsage};
use llm_browser_testkit::endpoints::TaskType;
use llm_browser_testkit::events::{StepStatus, TestEvent};
use llm_browser_testkit::execution::{step_endpoint, StepAction, StepEvent, StepOutcomes};
use llm_browser_testkit::llm::EnvSettings;
use llm_browser_testkit::mcp_client::{McpContent, McpToolResult};
use llm_browser_testkit::runner::{ScenarioRunner, StepResult, TestRunResult};
use llm_browser_testkit::scenario::{
    AssertDefinition, EndpointConfig, EndpointType, PricingConfig, ScenarioConfig, TestGroup,
    TestStep,
};
use llm_browser_testkit::steps::{Poll, Saved, StepNext};
use llm_browser_testkit::targeting::{PageContent, TargetNext, TargetPage};

fn runner() -> ScenarioRunner {
    let env = EnvSettings {
        base_url: None,
        llm_url: None,
        llm_model: None,
        llm_api_key: None,
        llm_headers: None,
        llm_call_attempts: None,
        headless: None,
    };
    let config = ScenarioConfig {
        endpoints: vec![
            (
                "main".to_owned(),
                EndpointConfig {
                    endpoint_type: EndpointType::Llm,
                    url: Some("http://llm".to_owned()),
                    pricing: Some(PricingConfig {
                        input_per_1m_tokens: 2_000_000,
                        output_per_1m_tokens: 4_000_000,
                        per_call: 0,
                    }),
                    ..EndpointConfig::default()
                },
            ),
            (
                "helper".to_owned(),
                EndpointConfig {
                    endpoint_type: EndpointType::A2a,
                    url: Some("http://agent".to_owned()),
                    pricing: Some(PricingConfig {
                        input_per_1m_tokens: 0,
                        output_per_1m_tokens: 0,
                        per_call: 7,
                    }),
                    ..EndpointConfig::default()
                },
            ),
            (
                "db".to_owned(),
                EndpointConfig {
                    endpoint_type: EndpointType::Mcp,
                    command: Some("db-server".to_owned()),
                    args: vec!["--ro".to_owned()],
                    ..EndpointConfig::default()
                },
            ),
        ],
        ..ScenarioConfig::default()
    };
    let definitions = vec![AssertDefinition {
        name: "judged".to_owned(),
        preset: None,
        prompt: None,
        system: None,
        user_template: None,
        assert_text: None,
        agent: Some("helper".to_owned()),
        task_template: Some("look at {url}".to_owned()),
    }];
    ScenarioRunner::new(config, definitions, &env)
}

fn group(steps: Vec<TestStep>) -> TestGroup {
    TestGroup {
        name: "smoke".to_owned(),
        start_url: None,
        auto_navigate: None,
        base_url: None,
        timeout_secs: None,
        browser_headless: None,
        viewport_width: None,
        viewport_height: None,
        budget: None,
        endpoint: Some("main".to_owned()),
        steps,
    }
}

fn click(selector: Option<&str>) -> TestStep {
    TestStep::Click {
        target: "the button".to_owned(),
        selector: selector.map(str::to_owned),
        wait_after_ms: None,
        endpoint: None,
        idempotent: false,
    }
}

fn page() -> PageContent {
    PageContent {
        url: "http://app/x".to_owned(),
        title: "X".to_owned(),
        body_text: "Hello".to_owned(),
    }
}

/// Runs a step to its end: each answer is what happens next.
fn drive(step: &TestStep, events: Vec<StepEvent>) -> (StepResult, Vec<&'static str>) {
    let runner = runner();
    let test = group(Vec::new());
    let mut outcomes = StepOutcomes::new();
    let mut asked = Vec::new();
    for event in events {
        let action = runner.run_step(&test, step, "http://app", &outcomes);
        asked.push(kind(&action));
        assert!(
            outcomes.happened(step, &action, event),
            "no outcome of {}",
            kind(&action)
        );
    }
    match runner.run_step(&test, step, "http://app", &outcomes) {
        StepAction::Done(result) => (result, asked),
        action => panic!("the step asks for {}", kind(&action)),
    }
}

fn kind(action: &StepAction) -> &'static str {
    match action {
        StepAction::Browser(StepNext::Navigate { .. }) => "navigate",
        StepAction::Browser(StepNext::Find { .. }) => "find",
        StepAction::Browser(StepNext::Click { .. }) => "click",
        StepAction::Browser(StepNext::Type { .. }) => "type",
        StepAction::Browser(StepNext::Poll { .. }) => "poll",
        StepAction::Browser(StepNext::Save { .. }) => "save",
        StepAction::Browser(_) => "nothing",
        StepAction::Target(TargetNext::ReadPage) => "read elements",
        StepAction::Target(TargetNext::Ask { .. }) => "ask for a selector",
        StepAction::Target(TargetNext::Check { .. }) => "check",
        StepAction::Target(TargetNext::Unusable { .. }) => "excerpt",
        StepAction::Target(_) => "nothing",
        StepAction::Assert(AssertNext::ReadPage { .. }) => "read page",
        StepAction::Assert(AssertNext::Capture { .. }) => "capture",
        StepAction::Assert(AssertNext::Ask { .. }) => "ask for a verdict",
        StepAction::Assert(AssertNext::ScanLayout) => "scan",
        StepAction::Assert(AssertNext::CallAgent { .. }) => "agent",
        StepAction::Assert(AssertNext::CallTool { .. }) => "tool",
        StepAction::Assert(AssertNext::Done(_)) => "nothing",
        StepAction::Done(_) => "nothing",
    }
}

fn acted() -> StepEvent {
    StepEvent::Acted(Ok(()))
}

fn replied(text: &str) -> StepEvent {
    StepEvent::Replied(Ok(text.to_owned()))
}

fn elements() -> StepEvent {
    StepEvent::ElementsRead(Ok(TargetPage {
        content: page(),
        elements: "button#go".to_owned(),
    }))
}

#[test]
fn an_explicit_selector_asks_no_llm() {
    let (result, asked) = drive(&click(Some("#go")), vec![acted(), acted()]);
    assert_eq!(asked, vec!["find", "click"]);
    assert_eq!(result.status, StepStatus::Passed);
    assert_eq!(result.message, "clicked #go");
}

#[test]
fn a_described_element_is_asked_for_and_confirmed() {
    let (result, asked) = drive(
        &click(None),
        vec![
            elements(),
            replied("`#no`"),
            StepEvent::Checked(false),
            replied("#go"),
            StepEvent::Checked(true),
            acted(),
            acted(),
        ],
    );
    assert_eq!(
        asked,
        vec![
            "read elements",
            "ask for a selector",
            "check",
            "ask for a selector",
            "check",
            "find",
            "click",
        ]
    );
    assert_eq!(result.message, "clicked #go");
}

#[test]
fn an_unusable_second_answer_ends_the_step() {
    let (result, asked) = drive(
        &click(None),
        vec![
            elements(),
            replied("#no"),
            StepEvent::Checked(false),
            replied("none"),
            StepEvent::Excerpted("nothing usable".to_owned()),
        ],
    );
    assert_eq!(asked.last(), Some(&"excerpt"));
    assert_eq!(result.status, StepStatus::Failed);
    assert_eq!(result.message, "nothing usable");
}

#[test]
fn typing_and_waiting() {
    let (result, asked) = drive(
        &TestStep::Type {
            target: "name".to_owned(),
            text: "Ada".to_owned(),
            selector: Some("#name".to_owned()),
            wait_after_ms: None,
            endpoint: None,
            idempotent: false,
        },
        vec![acted(), acted(), acted()],
    );
    assert_eq!(asked, vec!["find", "click", "type"]);
    assert_eq!(result.message, "typed \"Ada\" into #name");

    let wait = TestStep::Wait {
        target: "greeting".to_owned(),
        selector: None,
        text: Some("Hello".to_owned()),
        timeout_ms: Some(1000),
        endpoint: None,
        idempotent: false,
    };
    let look = |text_ok: bool, elapsed_ms: u64| {
        StepEvent::Polled(Poll {
            selector_ok: true,
            text_ok,
            elapsed_ms,
        })
    };
    let (result, asked) = drive(&wait, vec![look(false, 10), look(true, 270)]);
    assert_eq!(asked, vec!["poll", "poll"]);
    assert_eq!(result.status, StepStatus::Passed);
    let (result, _) = drive(&wait, vec![look(false, 10), look(false, 1000)]);
    assert_eq!(result.status, StepStatus::Failed);
}

#[test]
fn browser_steps() {
    let navigate = TestStep::Navigate {
        url: "/x".to_owned(),
        wait_after_ms: None,
    };
    let (result, asked) = drive(&navigate, vec![acted()]);
    assert_eq!(asked, vec!["navigate"]);
    assert_eq!(result.name, "[navigate] http://app/x");

    let picture = TestStep::Screenshot { path: None };
    let (result, asked) = drive(&picture, vec![StepEvent::Pictured(Saved::Written)]);
    assert_eq!(asked, vec!["save"]);
    assert_eq!(result.message, "saved to screenshot.png");

    let login = TestStep::Login {
        url: None,
        email: "ada@example.com".to_owned(),
        password: "secret".to_owned(),
        wait_after_ms: None,
    };
    let (result, asked) = drive(
        &login,
        vec![
            acted(),
            acted(),
            acted(),
            acted(),
            acted(),
            acted(),
            acted(),
        ],
    );
    assert_eq!(
        asked,
        vec!["navigate", "find", "type", "type", "find", "click", "find"]
    );
    assert_eq!(result.name, "[login] http://app/auth/login");
    assert_eq!(result.message, "logged in as ada@example.com");
}

#[test]
fn assertions_agents_and_tools() {
    let verdict = TestStep::Assert {
        definition: None,
        preset: Some("no_error_on_page".to_owned()),
        prompt: None,
        assert_text: None,
        endpoint: None,
        screenshot: false,
    };
    let (result, asked) = drive(&verdict, vec![StepEvent::PageRead(page()), replied("PASS")]);
    assert_eq!(asked, vec!["read page", "ask for a verdict"]);
    assert_eq!(result.status, StepStatus::Passed);

    let scan = TestStep::Assert {
        definition: None,
        preset: Some("layout_no_issues".to_owned()),
        prompt: None,
        assert_text: None,
        endpoint: None,
        screenshot: false,
    };
    let (result, asked) = drive(
        &scan,
        vec![
            StepEvent::PageRead(page()),
            StepEvent::Scanned(Ok(Vec::new())),
        ],
    );
    assert_eq!(asked, vec!["read page", "scan"]);
    assert_eq!(result.status, StepStatus::Passed);

    let judged = TestStep::Assert {
        definition: Some("judged".to_owned()),
        preset: None,
        prompt: None,
        assert_text: None,
        endpoint: None,
        screenshot: false,
    };
    let (result, asked) = drive(
        &judged,
        vec![StepEvent::PageRead(page()), replied("fail: broken")],
    );
    assert_eq!(asked, vec!["read page", "agent"]);
    assert_eq!(result.status, StepStatus::Failed);
    assert_eq!(result.message, "fail: broken");

    let agent = TestStep::Agent {
        agent: "helper".to_owned(),
        task: "do it".to_owned(),
        definition: None,
    };
    let (result, _) = drive(&agent, vec![replied("pass")]);
    assert_eq!(result.message, "PASS: pass");

    let tool = TestStep::Mcp {
        server: "db".to_owned(),
        tool: "query".to_owned(),
        args: None,
    };
    let (result, asked) = drive(
        &tool,
        vec![StepEvent::ToolReplied(Ok(McpToolResult {
            content: vec![McpContent::Text {
                text: "3 rows".to_owned(),
            }],
            isError: false,
        }))],
    );
    assert_eq!(asked, vec!["tool"]);
    assert_eq!(result.message, "3 rows");
}

#[test]
fn events_that_answer_nothing_change_nothing() {
    let runner = runner();
    let test = group(Vec::new());
    let step = click(Some("#go"));
    let mut outcomes = StepOutcomes::new();
    let action = runner.run_step(&test, &step, "http://app", &outcomes);
    assert!(!outcomes.happened(&step, &action, replied("PASS")));
    assert!(!outcomes.happened(&step, &action, StepEvent::Checked(true)));
    assert_eq!(
        kind(&runner.run_step(&test, &step, "http://app", &outcomes)),
        "find"
    );
}

#[test]
fn a_step_names_its_endpoint_before_its_test() {
    let test = group(Vec::new());
    assert_eq!(step_endpoint(&click(None), &test), Some("main"));
    let own = TestStep::Click {
        target: "x".to_owned(),
        selector: None,
        wait_after_ms: None,
        endpoint: Some("other".to_owned()),
        idempotent: false,
    };
    assert_eq!(step_endpoint(&own, &test), Some("other"));
}

#[test]
fn answers_are_paid_and_failures_are_not() {
    let mut runner = runner();
    let endpoint = runner.endpoints.get("main").expect("configured").clone();
    let answer = Ok(LlmResponse {
        content: "PASS".to_owned(),
        usage: LlmUsage {
            prompt_tokens: 1000,
            completion_tokens: 500,
            total_tokens: 1500,
        },
    });
    let event = runner.llm_call_finished(
        ("smoke", 3),
        &endpoint,
        ("gpt", TaskType::Assertion),
        &answer,
        12,
    );
    match event {
        TestEvent::LlmCallFinished {
            test,
            index,
            endpoint,
            model,
            purpose,
            ok,
            duration_ms,
            input_tokens,
            output_tokens,
            cost,
            error,
        } => {
            assert_eq!(
                (test.as_str(), index, endpoint.as_str()),
                ("smoke", 3, "main")
            );
            assert_eq!((model.as_str(), purpose.as_str()), ("gpt", "assertion"));
            assert!(ok);
            assert_eq!((duration_ms, input_tokens, output_tokens), (12, 1000, 500));
            // 1000 tokens at $2 and 500 at $4 per million.
            assert_eq!(cost, 4_000_000_000);
            assert_eq!(error, None);
        }
        _ => panic!("a finished call"),
    }
    let event = runner.llm_call_finished(
        ("smoke", 4),
        &endpoint,
        ("gpt", TaskType::Targeting),
        &Err("down".to_owned()),
        1,
    );
    assert!(matches!(
        event,
        TestEvent::LlmCallFinished { ok: false, cost: 0, error: Some(e), .. } if e == "down"
    ));
    let used = runner.usage.current_test_snapshot();
    assert_eq!((used.total_calls, used.total_tokens), (1, 1500));
    assert_eq!(used.total_cost, 4_000_000_000);
}

#[test]
fn agents_and_tools_are_paid_per_call() {
    let mut runner = runner();
    let judged = TestStep::Assert {
        definition: Some("judged".to_owned()),
        preset: None,
        prompt: None,
        assert_text: None,
        endpoint: None,
        screenshot: false,
    };
    assert_eq!(runner.flat_endpoint(&judged), Some("helper"));
    assert_eq!(runner.flat_endpoint(&click(None)), None);
    runner.flat_call_finished("helper");
    runner.flat_call_finished("unknown");
    let used = runner.usage.current_test_snapshot();
    assert_eq!((used.total_calls, used.total_cost), (1, 7));
    let event = runner.test_finished("smoke", &TestRunResult::default(), 5);
    assert!(matches!(
        event,
        TestEvent::TestFinished { test, calls: 1, cost: 7, tokens: 0, duration_ms: 5, passed: 0, .. }
            if test == "smoke"
    ));
}
