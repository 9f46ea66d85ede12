//! The scenario runner.
use llm_browser_testkit::budgets::BudgetStatus;
use llm_browser_testkit::costs::{LlmResponse, LlmUsage};
use llm_browser_testkit::diagnostics::PageState;
use llm_browser_testkit::endpoints::TaskType;
use llm_browser_testkit::llm::EnvSettings;
use llm_browser_testkit::runner::{
    next_in_chain, scenario_verdict, step_kind_label, step_label, with_diagnostics, AfterStep,
    ChainNext, RunReport, ScenarioRunner, ScenarioVerdict, StepResult, StepStatus, TestRunResult,
};
use llm_browser_testkit::scenario::{
    BudgetDef, BudgetEnforcement, BudgetsConfig, EndpointConfig, ScenarioConfig, TestGroup,
    TestStep,
};

fn env() -> EnvSettings {
    EnvSettings {
        base_url: None,
        llm_url: None,
        llm_model: None,
        llm_api_key: None,
        llm_headers: None,
        llm_call_attempts: None,
        headless: None,
    }
}

fn navigate(url: &str, wait_after_ms: Option<u64>) -> TestStep {
    TestStep::Navigate {
        url: url.to_owned(),
        wait_after_ms,
    }
}

fn prompt(text: &str) -> TestStep {
    TestStep::Assert {
        definition: None,
        preset: None,
        prompt: Some(text.to_owned()),
        assert_text: None,
        endpoint: None,
        screenshot: false,
    }
}

fn group(name: &str) -> TestGroup {
    TestGroup {
        name: name.to_owned(),
        start_url: None,
        auto_navigate: None,
        base_url: None,
        timeout_secs: None,
        browser_headless: None,
        viewport_width: None,
        viewport_height: None,
        budget: None,
        endpoint: None,
        steps: Vec::new(),
    }
}

fn result(status: StepStatus) -> StepResult {
    StepResult {
        name: "[x]".to_owned(),
        status,
        message: "m".to_owned(),
    }
}

#[test]
fn a_runner_takes_its_settings_from_the_scenario_and_else_the_environment() {
    let runner = ScenarioRunner::new(ScenarioConfig::default(), Vec::new(), &env());
    assert_eq!(runner.llm.url, "http://localhost:8080");
    assert_eq!(runner.llm.model, "deepseek");
    assert_eq!(runner.timeout_secs, 60);
    assert_eq!((runner.viewport_width, runner.viewport_height), (1280, 720));
    assert_eq!(runner.artifacts_dir, "artifacts");
    assert!(runner.headless());
    let config = ScenarioConfig {
        llm_url: Some("http://own".to_owned()),
        llm_api_key: Some("k".to_owned()),
        timeout_secs: Some(5),
        browser_headless: Some(false),
        ..ScenarioConfig::default()
    };
    let runner = ScenarioRunner::new(config, Vec::new(), &env());
    assert_eq!(runner.llm.url, "http://own");
    assert_eq!(runner.llm.api_key.as_deref(), Some("k"));
    assert_eq!(runner.llm.timeout_secs, 5);
    assert!(!runner.headless());
    assert_eq!(
        runner.endpoints.resolve(None, TaskType::Assertion).url,
        "http://own"
    );
}

#[test]
fn endpoints_inherit_what_they_do_not_set() {
    let config = ScenarioConfig {
        llm_url: Some("http://shared".to_owned()),
        llm_model: Some("m".to_owned()),
        llm_api_key: Some("k".to_owned()),
        endpoints: vec![(
            "bare".to_owned(),
            EndpointConfig {
                url: Some(String::new()),
                model: Some("own".to_owned()),
                max_attempts: Some(9),
                ..EndpointConfig::default()
            },
        )],
        ..ScenarioConfig::default()
    };
    let runner = ScenarioRunner::new(config, Vec::new(), &env());
    let ep = runner.endpoints.get("bare").expect("an endpoint");
    let llm = runner.build_llm_for_endpoint(ep);
    assert_eq!(llm.url, "http://shared");
    assert_eq!(llm.model, "own");
    assert_eq!(llm.api_key.as_deref(), Some("k"));
    assert_eq!(llm.max_attempts, 9);
}

#[test]
fn plans_of_tests() {
    let config = ScenarioConfig {
        base_url: Some("http://app".to_owned()),
        auto_navigate: true,
        ..ScenarioConfig::default()
    };
    let runner = ScenarioRunner::new(config, Vec::new(), &env());
    let plan = runner.plan_test(&group("t"), (1280, 720), &env());
    assert_eq!(plan.base_url, "http://app");
    assert_eq!(plan.viewport, (1280, 720));
    assert!(!plan.switch_viewport);
    assert_eq!(plan.open.as_deref(), Some("http://app/dashboard"));
    let mut own = group("t");
    own.viewport_width = Some(390);
    own.auto_navigate = Some(false);
    own.base_url = Some("http://other".to_owned());
    let plan = runner.plan_test(&own, (1280, 720), &env());
    assert_eq!(plan.base_url, "http://other");
    assert_eq!(plan.viewport, (390, 720));
    assert!(plan.switch_viewport);
    assert_eq!(plan.open, None);
}

#[test]
fn labels_and_kinds_of_steps() {
    assert_eq!(step_label(&navigate("/x", None)), "[navigate] /x");
    assert_eq!(step_kind_label(&navigate("/x", None)), "navigate");
    assert_eq!(step_label(&prompt("Is it?")), "[assert] custom (Is it?)");
    assert_eq!(
        step_label(&prompt(&"p".repeat(61))),
        format!("[assert] custom ({}...<truncated>)", "p".repeat(60))
    );
    let login = TestStep::Login {
        url: None,
        email: "a".to_owned(),
        password: "b".to_owned(),
        wait_after_ms: None,
    };
    assert_eq!(step_label(&login), "[login] /auth/login");
    let mcp = TestStep::Mcp {
        server: "db".to_owned(),
        tool: "query".to_owned(),
        args: None,
    };
    assert_eq!(step_label(&mcp), "[mcp] db:query");
    assert_eq!(step_kind_label(&mcp), "mcp");
}

#[test]
fn chains_are_tried_in_order() {
    let answer = || LlmResponse {
        content: "PASS".to_owned(),
        usage: LlmUsage::default(),
    };
    assert!(matches!(next_in_chain(2, &vec![]), ChainNext::Call(0)));
    assert!(matches!(
        next_in_chain(2, &vec![Err("a".to_owned())]),
        ChainNext::Call(1)
    ));
    assert!(matches!(
        next_in_chain(2, &vec![Err("a".to_owned()), Ok(answer())]),
        ChainNext::Answered(1)
    ));
    assert!(matches!(
        next_in_chain(2, &vec![Err("a".to_owned()), Err("b".to_owned())]),
        ChainNext::Failed(e) if e == "b"
    ));
}

#[test]
fn diagnostics_are_appended_to_failures_only() {
    let state = PageState {
        url: "http://x".to_owned(),
        title: "T".to_owned(),
        visible_text: "hello".to_owned(),
        alerts: Vec::new(),
    };
    let failed = with_diagnostics(result(StepStatus::Failed), &state);
    assert!(failed.message.starts_with("m — page: http://x (T)"), "{}", failed.message);
    assert_eq!(with_diagnostics(result(StepStatus::Passed), &state).message, "m");
}

#[test]
fn a_failed_step_fails_fast() {
    let steps = vec![navigate("/a", None), navigate("/b", None), navigate("/c", None)];
    let mut run = TestRunResult::default();
    assert!(matches!(
        run.step_finished(&steps, 0, result(StepStatus::Passed), false, BudgetStatus::Within),
        AfterStep::Continue {
            pause_ms: None,
            warning: None
        }
    ));
    assert!(matches!(
        run.step_finished(&steps, 1, result(StepStatus::Failed), false, BudgetStatus::Within),
        AfterStep::FailedFast { skipped: 1 }
    ));
    assert_eq!((run.passed, run.failed, run.skipped, run.total), (1, 1, 1, 3));
    assert_eq!(run.details.len(), 3);
    assert_eq!(run.details[1].name, "[navigate] /c");
    assert_eq!(run.details[1].status, StepStatus::Skipped);
    assert_eq!(run.details[1].message, "skipped: previous step failed");
    assert_eq!(run.details[2].status, StepStatus::Failed);
}

#[test]
fn a_test_can_continue_on_failure() {
    let steps = vec![navigate("/a", Some(50)), navigate("/b", None)];
    let mut run = TestRunResult::default();
    assert!(matches!(
        run.step_finished(&steps, 0, result(StepStatus::Failed), true, BudgetStatus::Within),
        AfterStep::Continue {
            pause_ms: Some(50),
            ..
        }
    ));
    run.step_finished(&steps, 1, result(StepStatus::Passed), true, BudgetStatus::Within);
    let mut report = RunReport::default();
    assert_eq!(report.add_test(run), Some(false));
    assert_eq!((report.tests_passed, report.tests_failed), (0, 1));
    assert_eq!((report.passed, report.failed), (1, 1));
}

#[test]
fn budgets_end_a_test_or_warn() {
    let steps = vec![navigate("/a", None), navigate("/b", None)];
    let mut run = TestRunResult::default();
    let soft = BudgetStatus::SoftExceeded {
        budget: "t".to_owned(),
        message: "soft".to_owned(),
    };
    assert!(matches!(
        run.step_finished(&steps, 0, result(StepStatus::Passed), false, soft),
        AfterStep::Continue { warning: Some(w), .. } if w == "soft"
    ));
    let hard = BudgetStatus::HardExceeded {
        budget: "t".to_owned(),
        message: "hard".to_owned(),
    };
    assert!(matches!(
        run.step_finished(&steps, 1, result(StepStatus::Passed), false, hard),
        AfterStep::OverBudget { message } if message == "hard"
    ));
    assert_eq!((run.passed, run.failed, run.total), (2, 1, 2));
    assert_eq!(run.details.last().expect("details").name, "[budget]");
}

#[test]
fn the_runner_checks_both_budgets() {
    let config = ScenarioConfig {
        budgets: BudgetsConfig {
            global: None,
            per_test_default: Some(BudgetDef {
                max_cost: None,
                max_tokens: Some(10),
                max_calls: None,
                enforcement: None,
            }),
        },
        ..ScenarioConfig::default()
    };
    let mut runner = ScenarioRunner::new(config, Vec::new(), &env());
    assert_eq!(runner.check_budgets(&group("t")), BudgetStatus::Within);
    let ep = runner.endpoints.resolve(None, TaskType::Assertion).clone();
    runner.usage.record_llm_call("default", &ep, 6, 5);
    match runner.check_budgets(&group("t")) {
        BudgetStatus::HardExceeded { budget, .. } => assert_eq!(budget, "t"),
        other => panic!("expected a violation, got {other:?}"),
    }
    assert_eq!(runner.usage_tracker().current_test_snapshot().total_tokens, 11);
    assert!(runner.budget_tracker().global.is_none());
}

#[test]
fn a_global_budget_counts_the_running_test() {
    let limited = |enforcement| ScenarioConfig {
        budgets: BudgetsConfig {
            global: Some(BudgetDef {
                max_cost: None,
                max_tokens: Some(10),
                max_calls: None,
                enforcement,
            }),
            per_test_default: None,
        },
        ..ScenarioConfig::default()
    };
    let mut runner = ScenarioRunner::new(limited(None), Vec::new(), &env());
    let ep = runner.endpoints.resolve(None, TaskType::Assertion).clone();
    runner.usage.record_llm_call("default", &ep, 6, 0);
    assert_eq!(runner.check_budgets(&group("a")), BudgetStatus::Within);
    runner.usage.commit_test("a");
    runner.usage.reset_per_test();
    runner.usage.record_llm_call("default", &ep, 0, 4);
    assert_eq!(runner.check_budgets(&group("b")), BudgetStatus::Within);
    runner.usage.record_llm_call("default", &ep, 1, 0);
    match runner.check_budgets(&group("b")) {
        BudgetStatus::HardExceeded { budget, message } => {
            assert_eq!(budget, "global");
            assert_eq!(
                message,
                "Token budget exceeded for 'global': 11.000000 > 10.000000"
            );
        }
        other => panic!("expected a violation, got {other:?}"),
    }
    let all = runner.usage.run_snapshot();
    assert_eq!((all.total_calls, all.total_tokens), (3, 11));

    let mut runner =
        ScenarioRunner::new(limited(Some(BudgetEnforcement::Soft)), Vec::new(), &env());
    runner.usage.record_llm_call("default", &ep, 2_000, 0);
    assert!(matches!(
        runner.check_budgets(&group("only")),
        BudgetStatus::SoftExceeded { .. }
    ));
}

#[test]
fn tests_without_steps_count_as_neither() {
    let mut report = RunReport::default();
    assert_eq!(report.add_test(TestRunResult::default()), None);
    assert_eq!((report.tests_passed, report.tests_failed), (0, 0));
}

#[test]
fn verdicts_of_scenarios_that_run_as_tests() {
    let verdict = |o: Result<RunReport, &str>| scenario_verdict("t", &o.map_err(str::to_owned));
    assert!(matches!(
        verdict(Err("failed to launch browser: no chrome")),
        ScenarioVerdict::Skipped(m) if m.contains("browser unavailable")
    ));
    assert!(matches!(
        verdict(Err("boom")),
        ScenarioVerdict::Failed(m) if m == "t: scenario run failed: boom"
    ));
    let report = |passed, failed, message: &str| RunReport {
        tests_passed: passed,
        tests_failed: failed,
        passed,
        failed,
        skipped: 0,
        details: vec![StepResult {
            name: "s".to_owned(),
            status: StepStatus::Failed,
            message: message.to_owned(),
        }],
    };
    assert!(matches!(
        verdict(Ok(report(0, 1, "LLM assertion call failed: x"))),
        ScenarioVerdict::Skipped(m) if m.contains("LLM endpoint unavailable")
    ));
    assert!(matches!(
        verdict(Ok(report(1, 1, "LLM assertion call failed: x"))),
        ScenarioVerdict::Failed(m) if m == "t: 1 test(s) failed, 1 passed"
    ));
    assert!(matches!(
        verdict(Ok(report(0, 0, ""))),
        ScenarioVerdict::Failed(m) if m == "t: no tests ran"
    ));
    assert!(matches!(verdict(Ok(report(2, 0, ""))), ScenarioVerdict::Passed));
}
