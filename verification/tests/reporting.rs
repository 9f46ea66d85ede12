//! Console, JUnit, GitHub, trace and cost reports.
use llm_browser_testkit::costs::{EndpointUsage, UsageSnapshot};
use llm_browser_testkit::events::{StepStatus, TestEvent};
use llm_browser_testkit::redact::ObservedRegistry;
use llm_browser_testkit::reporting::{
    detect_color, esc_attr, escape_data, escape_property, format_duration, format_event,
    github_annotation, print_budget_error, print_budget_warning, print_report, ColorMode,
    Emission, Level, Palette, Reporter,
};
use llm_browser_testkit::trace::TraceLog;
use serde_json::Value;

fn palette() -> Palette {
    Palette { enabled: false }
}

fn step_event(status: StepStatus) -> TestEvent {
    let failed = status == StepStatus::Failed;
    TestEvent::StepFinished {
        test: "login".into(),
        index: 0,
        label: "[click] sign in".into(),
        status,
        duration_ms: 1200,
        message: if failed {
            "element #btn not found".into()
        } else {
            "clicked #btn".into()
        },
        diagnostics: failed.then(|| "    | url: http://x".into()),
        screenshot: failed.then(|| "artifacts/login.png".into()),
    }
}

/// The end of a test, with how its steps ended and what it used.
fn test_finished(
    test: &str,
    (passed, failed, skipped): (u32, u32, u32),
    duration_ms: u64,
    (cost, tokens, calls): (u128, u64, u64),
) -> TestEvent {
    TestEvent::TestFinished {
        test: test.into(),
        passed,
        failed,
        skipped,
        duration_ms,
        cost,
        tokens,
        calls,
    }
}

fn run_finished() -> TestEvent {
    TestEvent::RunFinished {
        tests_passed: 1,
        tests_failed: 0,
        steps_passed: 1,
        steps_failed: 0,
        steps_skipped: 0,
        total_cost: 1_000_000_000,
        total_tokens: 100,
        total_calls: 1,
    }
}

fn emit(reporter: &mut Reporter, event: &TestEvent, now: u64) -> Emission {
    reporter.emit(&ObservedRegistry::new(), event, now, now)
}

#[test]
fn test_level_from_flags() {
    assert_eq!(Level::from_flags(0, 0), Level::Info);
    assert_eq!(Level::from_flags(0, 1), Level::Debug);
    assert_eq!(Level::from_flags(0, 2), Level::Trace);
    assert_eq!(Level::from_flags(0, 9), Level::Trace);
    assert_eq!(Level::from_flags(1, 0), Level::Warn);
    assert_eq!(Level::from_flags(1, 5), Level::Warn, "quiet wins");
    assert_eq!(Level::from_flags(2, 0), Level::Error);
    assert_eq!(Level::from_flags(3, 0), Level::Error);
}

#[test]
fn test_format_step_finished_failed_includes_diagnostics() {
    let (level, text) = format_event(&step_event(StepStatus::Failed), palette());
    assert_eq!(level, Level::Error);
    assert!(text.contains("[click] sign in"));
    assert!(text.contains("element #btn not found"));
    assert!(text.contains("1.2s"));
    assert!(text.contains("| url: http://x"));
    assert!(text.contains("screenshot: artifacts/login.png"));
    assert!(!text.contains("\x1b["), "no ANSI codes when color disabled");
}

#[test]
fn test_format_step_finished_passed_level_info() {
    let (level, text) = format_event(&step_event(StepStatus::Passed), palette());
    assert_eq!(level, Level::Info);
    assert!(text.contains("clicked #btn"));
    assert!(!text.contains("screenshot:"));
}

#[test]
fn test_format_test_finished_verdict() {
    let ok = format_event(&test_finished("t1", (3, 0, 0), 6100, (12_300_000_000, 1234, 4)), palette());
    assert_eq!(ok.0, Level::Info);
    assert!(ok.1.contains("passed"));

    let bad = format_event(&test_finished("t2", (1, 1, 2), 6100, (12_300_000_000, 1234, 4)), palette());
    assert!(bad.1.contains("failed"));
}

#[test]
fn test_format_llm_call_lines() {
    let started = format_event(
        &TestEvent::LlmCallStarted {
            test: "t".into(),
            index: 0,
            endpoint: "default".into(),
            model: "deepseek".into(),
            purpose: "targeting".into(),
        },
        palette(),
    );
    assert_eq!(started.0, Level::Debug);
    assert!(started.1.contains("llm(targeting): default (deepseek)"));

    let failed = format_event(
        &TestEvent::LlmCallFinished {
            test: "t".into(),
            index: 0,
            endpoint: "default".into(),
            model: "deepseek".into(),
            purpose: "targeting".into(),
            ok: false,
            duration_ms: 900,
            input_tokens: 100,
            output_tokens: 0,
            cost: 1_200_000_000,
            error: Some("HTTP 429: slow down".into()),
        },
        palette(),
    );
    assert_eq!(failed.0, Level::Warn);
    assert!(failed.1.contains("failed"));
    assert!(failed.1.contains("HTTP 429"));
}

#[test]
fn test_format_run_started_is_debug() {
    let (level, text) = format_event(&TestEvent::RunStarted { total_tests: 3 }, palette());
    assert_eq!(level, Level::Debug);
    assert!(text.contains("3 test(s)"));
}

#[test]
fn test_format_duration() {
    assert_eq!(format_duration(0), "0ms");
    assert_eq!(format_duration(431), "431ms");
    assert_eq!(format_duration(1000), "1.0s");
    assert_eq!(format_duration(1234), "1.2s");
}

#[test]
fn durations_round_like_doubles() {
    // 1.25 and 1.75 lie half-way exactly; 1.05 is a little above, 1.15 a
    // little below its decimal text.
    for ms in [1250_u64, 1750, 1050, 1150, 999_950, 60_000, 123_456_789] {
        assert_eq!(format_duration(ms), format!("{:.1}s", ms as f64 / 1000.0));
    }
}

#[test]
fn test_github_escaping() {
    assert_eq!(escape_data("a% b\nc\rd"), "a%25 b%0Ac%0Dd");
    assert_eq!(escape_property("a:b,c\n%d"), "a%3Ab%2Cc%0A%25d");
}

#[test]
fn attributes_are_escaped() {
    assert_eq!(
        esc_attr("a<b>&\"c\""),
        "a&lt;b&gt;&amp;&quot;c&quot;"
    );
}

#[test]
fn test_reporter_jsonl_emits_typed_timestamped_lines() {
    let mut reporter = Reporter::new(Level::Debug, false, true, false, false, false);
    let events = [
        TestEvent::RunStarted { total_tests: 1 },
        TestEvent::StepStarted {
            test: "login".into(),
            index: 0,
            label: "[click] sign in".into(),
        },
        step_event(StepStatus::Passed),
        test_finished("login", (1, 0, 0), 1200, (1_000_000_000, 100, 1)),
        run_finished(),
    ];
    let lines: Vec<String> = events
        .iter()
        .map(|e| emit(&mut reporter, e, 5).log.expect("a log line"))
        .collect();
    assert_eq!(lines.len(), 5);
    let first: Value = serde_json::from_str(&lines[0]).expect("json line");
    assert_eq!(first["type"], "run_started");
    assert!(first["ts"].as_u64().expect("ts") > 0);
    let step: Value = serde_json::from_str(&lines[2]).expect("json line");
    assert_eq!(step["type"], "step_finished");
    assert_eq!(step["status"], "passed");
    assert_eq!(step["test"], "login");
    let finished: Value = serde_json::from_str(&lines[4]).expect("json line");
    assert_eq!(finished["type"], "run_finished");
    assert_eq!(finished["tests_passed"], 1);
}

#[test]
fn test_reporter_junit_creates_failure_elements() {
    let mut reporter = Reporter::new(Level::Info, false, false, true, false, false);
    emit(&mut reporter, &step_event(StepStatus::Failed), 1);
    emit(&mut reporter, &step_event(StepStatus::Skipped), 2);
    emit(&mut reporter, &test_finished("login", (0, 1, 1), 5000, (0, 0, 0)), 3);

    let xml = reporter.junit_report().expect("a report");
    assert!(xml.starts_with("<?xml version=\"1.0\""));
    assert!(xml.contains("<testsuites tests=\"1\" failures=\"1\" skipped=\"1\""));
    assert!(xml.contains("name=\"login\""));
    assert!(xml.contains("<skipped/>"));
    assert!(xml.contains("<failure"));
    assert!(xml.contains("element #btn not found"));
    assert!(xml.contains("screenshot: artifacts/login.png"));
    // XML safety: a failure message with angle brackets must be escaped
    let weird = TestEvent::StepFinished {
        test: "weird".into(),
        index: 0,
        label: "[wait] <weird>".into(),
        status: StepStatus::Failed,
        duration_ms: 10,
        message: "boom <tag> & \"quote\"".into(),
        diagnostics: None,
        screenshot: None,
    };
    emit(&mut reporter, &weird, 4);
    emit(&mut reporter, &test_finished("weird", (0, 1, 0), 10, (0, 0, 0)), 5);
    let xml2 = reporter.junit_report().expect("a report");
    // Attribute copies are XML-escaped...
    assert!(xml2.contains("&lt;weird&gt;") && xml2.contains("&amp; &quot;quote&quot;"));
    // ...while the CDATA body keeps the raw text.
    assert!(xml2.contains("[wait] <weird>: boom <tag> & \"quote\""));
}

#[test]
fn test_reporter_trace_emits_complete_spans() {
    let mut reporter = Reporter::new(Level::Info, false, false, false, true, false);
    emit(
        &mut reporter,
        &TestEvent::TestStarted {
            test: "login".into(),
        },
        1_000,
    );
    emit(
        &mut reporter,
        &TestEvent::StepStarted {
            test: "login".into(),
            index: 0,
            label: "[click] sign in".into(),
        },
        1_500,
    );
    emit(&mut reporter, &step_event(StepStatus::Passed), 2_500);
    emit(&mut reporter, &test_finished("login", (1, 0, 0), 1200, (0, 0, 0)), 3_000);

    let doc = reporter.trace_document().expect("a trace");
    let events = doc["traceEvents"].as_array().expect("traceEvents array");
    assert_eq!(events.len(), 2);
    // Spans close inner-first, so the array starts with the step.
    let step = &events[0];
    assert_eq!(step["name"], "[click] sign in");
    assert_eq!(step["ph"], "X");
    assert_eq!(step["cat"], "step");
    assert_eq!(events[1]["name"], "login");
    assert_eq!(events[1]["cat"], "test");
    assert!(step["ts"].as_u64().expect("ts") > 0);
    assert_eq!(step["dur"], 1000);
    assert_eq!(doc["displayTimeUnit"], "ms");
}

#[test]
fn an_empty_trace_is_a_document() {
    let doc = TraceLog::new().document();
    assert_eq!(doc["traceEvents"].as_array().map(Vec::len), Some(0));
}

fn make_snapshot(cost: u128, tokens: u64, calls: u64) -> UsageSnapshot {
    UsageSnapshot::from_endpoints(&vec![(
        "default".to_owned(),
        EndpointUsage {
            calls,
            input_tokens: tokens / 2,
            output_tokens: tokens / 2,
            cost,
        },
    )])
}

#[test]
fn test_print_report_empty() {
    assert_eq!(print_report(&vec![], &UsageSnapshot::default()), "");
}

#[test]
fn test_print_report_single_test() {
    let per_test = vec![("test1".to_owned(), make_snapshot(50_000_000_000, 500, 3))];
    let report = print_report(&per_test, &make_snapshot(50_000_000_000, 500, 3));
    assert_eq!(
        report,
        "\n═══════════════════════════════════════════════\n  COST REPORT\n\
         ═══════════════════════════════════════════════\n  \
         Test: \"test1\" — $0.0500 | 500 tokens | 3 calls\n    \
         endpoint.default:   3 calls,   500 tokens, $0.0500\n\
         ───────────────────────────────────────────────\n  GLOBAL SUMMARY\n    \
         Total cost:     $0.0500\n    Total tokens:   500\n    Total calls:    3\n\
         ═══════════════════════════════════════════════\n"
    );
}

#[test]
fn the_cost_report_breaks_down_tests_and_endpoints() {
    let used = |calls: u64, tokens: u64, cost: u128| EndpointUsage {
        calls,
        input_tokens: tokens,
        output_tokens: 0,
        cost: cost * 100_000_000,
    };
    let homepage = vec![("default".to_owned(), used(4, 1_234, 123))];
    let dashboard = vec![
        ("vision".to_owned(), used(2, 3_000, 450)),
        ("default".to_owned(), used(3, 1_567, 441)),
        ("audit_bot".to_owned(), used(1, 0, 0)),
    ];
    let all = vec![
        ("default".to_owned(), used(7, 2_801, 564)),
        ("vision".to_owned(), used(2, 3_000, 450)),
        ("audit_bot".to_owned(), used(1, 0, 0)),
    ];
    let per_test = vec![
        (
            "Homepage loads".to_owned(),
            UsageSnapshot::from_endpoints(&homepage),
        ),
        (
            "Dashboard smoke".to_owned(),
            UsageSnapshot::from_endpoints(&dashboard),
        ),
    ];
    let report = print_report(&per_test, &UsageSnapshot::from_endpoints(&all));
    assert_eq!(
        report,
        r#"
═══════════════════════════════════════════════
  COST REPORT
═══════════════════════════════════════════════
  Test: "Homepage loads" — $0.0123 | 1,234 tokens | 4 calls
    endpoint.default:   4 calls,   1,234 tokens, $0.0123
  Test: "Dashboard smoke" — $0.0891 | 4,567 tokens | 6 calls
    endpoint.vision:    2 calls,   3,000 tokens, $0.0450
    endpoint.default:   3 calls,   1,567 tokens, $0.0441
    endpoint.audit_bot:   1 call,   0 tokens, $0.0000
───────────────────────────────────────────────
  GLOBAL SUMMARY
    Total cost:     $0.1014
    Total tokens:   5,801
    Total calls:    10
═══════════════════════════════════════════════
"#
    );
}

#[test]
fn large_counts_are_grouped() {
    let usage = UsageSnapshot::from_endpoints(&vec![(
        "a".to_owned(),
        EndpointUsage {
            calls: 1_000,
            input_tokens: 1_000_000,
            output_tokens: 23,
            cost: 0,
        },
    )]);
    let report = print_report(&vec![("t".to_owned(), usage.copy())], &usage);
    assert!(report.contains("Test: \"t\" — $0.0000 | 1,000,023 tokens | 1,000 calls\n"));
    assert!(report.contains("Total tokens:   1,000,023\n"));
}

#[test]
fn unused_endpoints_are_left_out_of_the_report() {
    let idle = UsageSnapshot::from_endpoints(&vec![(
        "idle".to_owned(),
        EndpointUsage {
            calls: 0,
            input_tokens: 0,
            output_tokens: 0,
            cost: 0,
        },
    )]);
    let report = print_report(&vec![("t".to_owned(), idle)], &UsageSnapshot::default());
    assert!(!report.contains("endpoint.idle"));
}

#[test]
fn the_console_shows_what_its_level_allows() {
    let mut quiet = Reporter::new(Level::Error, false, false, false, false, false);
    assert!(emit(&mut quiet, &step_event(StepStatus::Passed), 1).console.is_none());
    assert!(emit(&mut quiet, &step_event(StepStatus::Failed), 1).console.is_some());
    let observed = ObservedRegistry::new();
    assert_eq!(quiet.info(&observed, "hello"), None);
    assert!(quiet.error(&observed, "bad").expect("shown").contains("bad"));
    let mut info = Reporter::new(Level::Info, false, false, false, false, false);
    info.add_redaction_secret("s3cr3t");
    assert!(!info
        .info(&observed, "key s3cr3t")
        .expect("shown")
        .contains("s3cr3t"));
}

#[test]
fn github_annotations_and_summary() {
    let mut reporter = Reporter::new(Level::Info, false, false, false, false, true);
    let failed = emit(&mut reporter, &step_event(StepStatus::Failed), 1);
    let line = failed.annotation.expect("an annotation");
    assert!(line.starts_with("::error"), "got: {line}");
    assert_eq!(Some(line), github_annotation(&step_event(StepStatus::Failed)));
    assert!(emit(&mut reporter, &step_event(StepStatus::Passed), 1)
        .annotation
        .is_none());
    assert_eq!(reporter.summary_report(), None);
    emit(&mut reporter, &run_finished(), 2);
    assert!(reporter.summary_report().expect("a summary").contains('1'));
}

#[test]
fn colors() {
    assert!(detect_color(ColorMode::Always, true, false));
    assert!(!detect_color(ColorMode::Never, false, true));
    assert!(detect_color(ColorMode::Auto, false, true));
    assert!(!detect_color(ColorMode::Auto, true, true));
    assert!(!detect_color(ColorMode::Auto, false, false));
    let on = Palette { enabled: true };
    assert_eq!(on.green("ok"), "\x1b[32mok\x1b[0m");
    assert_eq!(on.red("no"), "\x1b[31mno\x1b[0m");
    assert_eq!(palette().green("ok"), "ok");
}

#[test]
fn budget_lines() {
    assert_eq!(print_budget_warning("m"), "  ! BUDGET WARNING: m");
    assert_eq!(print_budget_error("m"), "  ✗ BUDGET EXCEEDED: m");
}
