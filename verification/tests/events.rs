//! Events as JSON.
use llm_browser_testkit::events::{event_json, log_line, StepStatus, TestEvent};
use serde_json::Value;

#[test]
fn test_step_status_serializes_snake_case() {
    assert_eq!(StepStatus::Passed.as_str(), "passed");
    assert_eq!(StepStatus::Failed.as_str(), "failed");
    assert_eq!(StepStatus::Skipped.as_str(), "skipped");
}

#[test]
fn test_event_serializes_with_type_tag() {
    let event = TestEvent::StepFinished {
        test: "login".into(),
        index: 2,
        label: "[click] the button".into(),
        status: StepStatus::Failed,
        duration_ms: 1234,
        message: "element #btn not found".into(),
        diagnostics: Some("    │ url: http://x".into()),
        screenshot: Some("artifacts/x.png".into()),
    };
    let value = event_json(&event);
    assert_eq!(value["type"], "step_finished");
    assert_eq!(value["test"], "login");
    assert_eq!(value["index"], 2);
    assert_eq!(value["label"], "[click] the button");
    assert_eq!(value["status"], "failed");
    assert_eq!(value["duration_ms"], 1234);
    assert_eq!(value["message"], "element #btn not found");
    assert_eq!(value["diagnostics"], "    │ url: http://x");
    assert_eq!(value["screenshot"], "artifacts/x.png");
}

#[test]
fn test_run_started_shape() {
    let value = event_json(&TestEvent::RunStarted { total_tests: 3 });
    assert_eq!(value["type"], "run_started");
    assert_eq!(value["total_tests"], 3);
}

#[test]
fn test_llm_call_finished_shape() {
    let value = event_json(&TestEvent::LlmCallFinished {
        test: "login".into(),
        index: 0,
        endpoint: "default".into(),
        model: "deepseek".into(),
        purpose: "targeting".into(),
        ok: false,
        duration_ms: 900,
        input_tokens: 100,
        output_tokens: 0,
        cost: 1_200_000_000,
        error: Some("HTTP 429: slow down".into()),
    });
    assert_eq!(value["type"], "llm_call_finished");
    assert_eq!(value["endpoint"], "default");
    assert_eq!(value["model"], "deepseek");
    assert_eq!(value["purpose"], "targeting");
    assert_eq!(value["ok"], false);
    assert_eq!(value["cost"], 0.0012);
    assert_eq!(value["error"], "HTTP 429: slow down");
}

#[test]
fn test_run_finished_shape() {
    let value = event_json(&TestEvent::RunFinished {
        tests_passed: 2,
        tests_failed: 1,
        steps_passed: 9,
        steps_failed: 1,
        steps_skipped: 2,
        total_cost: 50_000_000_000,
        total_tokens: 5000,
        total_calls: 7,
    });
    assert_eq!(value["type"], "run_finished");
    assert_eq!(value["tests_passed"], 2);
    assert_eq!(value["steps_failed"], 1);
    assert_eq!(value["total_cost"], 0.05);
}

#[test]
fn test_warning_shape() {
    let value = event_json(&TestEvent::Warning {
        message: "budget soft".into(),
    });
    assert_eq!(value["type"], "warning");
    assert_eq!(value["message"], "budget soft");
}

#[test]
fn absent_texts_are_null() {
    let value = event_json(&TestEvent::StepFinished {
        test: "t".into(),
        index: 0,
        label: "l".into(),
        status: StepStatus::Passed,
        duration_ms: 1,
        message: "ok".into(),
        diagnostics: None,
        screenshot: None,
    });
    assert_eq!(value["diagnostics"], Value::Null);
    assert_eq!(value["screenshot"], Value::Null);
}

#[test]
fn log_lines_carry_the_time() {
    let line = log_line(&TestEvent::RunStarted { total_tests: 1 }, 1_700_000_000_123);
    let value: Value = serde_json::from_str(&line).expect("a JSON line");
    assert_eq!(value["ts"], 1_700_000_000_123_u64);
    assert_eq!(value["type"], "run_started");
    assert!(line.ends_with('\n'));
    assert_eq!(line.matches('\n').count(), 1);
}
