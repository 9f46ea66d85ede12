//! Typed run events emitted by the runner.
//!
//! Every interesting point in a run (test start/end, step start/end, LLM
//! call, budget warning) is a [`TestEvent`]. The sinks of the
//! [`crate::reporting::Reporter`] render these events for people, machines,
//! CI systems and profilers.
use vstd::prelude::*;
use vstd::string::StringExecFns;
use crate::json;
use crate::json::Json;
use crate::numbers;
use crate::scenario::Picodollars;
use crate::text;

verus! {

/// Outcome of a single step.
#[derive(Debug, Clone, Copy, PartialEq, Eq, Structural)]
pub enum StepStatus {
    /// Step executed successfully and all assertions passed.
    Passed,
    /// Step execution or assertion failed.
    Failed,
    /// Step was skipped.
    Skipped,
}

impl StepStatus {
    /// The name under which the status is logged.
    pub open spec fn name(self) -> Seq<char> {
        match self {
            StepStatus::Passed => "passed"@,
            StepStatus::Failed => "failed"@,
            StepStatus::Skipped => "skipped"@,
        }
    }

    /// The name under which the status is logged.
    pub fn as_str(&self) -> (r: &'static str)
        ensures
            r@ == self.name(),
    {
        match self {
            StepStatus::Passed => "passed",
            StepStatus::Failed => "failed",
            StepStatus::Skipped => "skipped",
        }
    }
}

/// One event in the run's lifecycle.
///
/// Logged as a flat JSON object with a `type` discriminator, e.g.
/// `{"type":"step_finished","test":"login","status":"passed",...}`.
#[derive(Debug, Clone)]
pub enum TestEvent {
    /// The run is about to execute `total_tests` tests.
    RunStarted {
        /// Number of tests in the run.
        total_tests: u32,
    },
    /// A test started.
    TestStarted {
        /// Test name (with the viewport suffix when expanded).
        test: String,
    },
    /// A step inside a test started.
    StepStarted {
        /// Enclosing test name.
        test: String,
        /// Zero-based step index within the test.
        index: u32,
        /// Human-readable label, e.g. `[click] the sign-in button`.
        label: String,
    },
    /// A step finished.
    StepFinished {
        /// Enclosing test name.
        test: String,
        /// Zero-based step index within the test.
        index: u32,
        /// Human-readable label, e.g. `[click] the sign-in button`.
        label: String,
        /// Outcome of the step.
        status: StepStatus,
        /// Wall-clock duration of the step.
        duration_ms: u64,
        /// Human-readable result message.
        message: String,
        /// Multi-line failure diagnostics; `None` for non-failed steps.
        diagnostics: Option<String>,
        /// Path of the failure screenshot, if one was written.
        screenshot: Option<String>,
    },
    /// An LLM call started.
    LlmCallStarted {
        /// Enclosing test name.
        test: String,
        /// Zero-based step index within the test.
        index: u32,
        /// Endpoint name being called.
        endpoint: String,
        /// Model name sent in the request.
        model: String,
        /// Call purpose: `targeting` or `assertion`.
        purpose: String,
    },
    /// An LLM call finished (success or exhaustion of all attempts).
    LlmCallFinished {
        /// Enclosing test name.
        test: String,
        /// Zero-based step index within the test.
        index: u32,
        /// Endpoint that answered (or the last one tried on failure).
        endpoint: String,
        /// Model name used.
        model: String,
        /// Call purpose: `targeting` or `assertion`.
        purpose: String,
        /// Whether an answer was obtained.
        ok: bool,
        /// Wall-clock duration of the call with its retries.
        duration_ms: u64,
        /// Input (prompt) tokens billed.
        input_tokens: u64,
        /// Output (completion) tokens billed.
        output_tokens: u64,
        /// Computed cost.
        cost: Picodollars,
        /// Error message when `ok` is false.
        error: Option<String>,
    },
    /// A test finished.
    TestFinished {
        /// Test name.
        test: String,
        /// Number of passed steps.
        passed: u32,
        /// Number of failed steps.
        failed: u32,
        /// Number of skipped steps.
        skipped: u32,
        /// Wall-clock duration of the whole test.
        duration_ms: u64,
        /// Total cost of the test.
        cost: Picodollars,
        /// Total tokens consumed by the test.
        tokens: u64,
        /// Total LLM/MCP/agent calls made by the test.
        calls: u64,
    },
    /// The whole run finished.
    RunFinished {
        /// Tests that passed.
        tests_passed: u32,
        /// Tests that failed.
        tests_failed: u32,
        /// Steps that passed.
        steps_passed: u32,
        /// Steps that failed.
        steps_failed: u32,
        /// Steps that were skipped.
        steps_skipped: u32,
        /// Total cost across all tests.
        total_cost: Picodollars,
        /// Total tokens consumed.
        total_tokens: u64,
        /// Total calls made.
        total_calls: u64,
    },
    /// A non-fatal warning (budget soft-exceeded, feature not enabled, ...).
    Warning {
        /// Human-readable warning text.
        message: String,
    },
}

/// An amount as a JSON number of dollars: what is read from its decimal text.
pub open spec fn cost_json(cost: Picodollars) -> Json {
    match json::parsed_json(numbers::with_decimals(cost as nat, 12)) {
        Ok(j) => j,
        Err(_) => Json::Null,
    }
}

/// An amount as a JSON number of dollars.
pub(crate) fn cost_value(cost: Picodollars) -> (r: serde_json::Value)
    ensures
        json::json_of(r) == cost_json(cost),
{
    match json::parse_json(numbers::exact_dollars(cost).as_str()) {
        Ok(v) => v,
        Err(_) => json::json_null(),
    }
}

/// The members of the JSON object of an event.
pub open spec fn event_members(event: TestEvent) -> Seq<(Seq<char>, Json)> {
    match event {
        TestEvent::RunStarted { total_tests } => seq![
            ("type"@, Json::Str("run_started"@)),
            ("total_tests"@, Json::UInt(total_tests as u64)),
        ],
        TestEvent::TestStarted { test } => seq![
            ("type"@, Json::Str("test_started"@)),
            ("test"@, Json::Str(test@)),
        ],
        TestEvent::StepStarted { test, index, label } => seq![
            ("type"@, Json::Str("step_started"@)),
            ("test"@, Json::Str(test@)),
            ("index"@, Json::UInt(index as u64)),
            ("label"@, Json::Str(label@)),
        ],
        TestEvent::StepFinished { test, index, label, status, duration_ms, message, diagnostics, screenshot } => seq![
            ("type"@, Json::Str("step_finished"@)),
            ("test"@, Json::Str(test@)),
            ("index"@, Json::UInt(index as u64)),
            ("label"@, Json::Str(label@)),
            ("status"@, Json::Str(status.name())),
            ("duration_ms"@, Json::UInt(duration_ms as u64)),
            ("message"@, Json::Str(message@)),
            ("diagnostics"@, json::option_json(diagnostics)),
            ("screenshot"@, json::option_json(screenshot)),
        ],
        TestEvent::LlmCallStarted { test, index, endpoint, model, purpose } => seq![
            ("type"@, Json::Str("llm_call_started"@)),
            ("test"@, Json::Str(test@)),
            ("index"@, Json::UInt(index as u64)),
            ("endpoint"@, Json::Str(endpoint@)),
            ("model"@, Json::Str(model@)),
            ("purpose"@, Json::Str(purpose@)),
        ],
        TestEvent::LlmCallFinished { test, index, endpoint, model, purpose, ok, duration_ms, input_tokens, output_tokens, cost, error } => seq![
            ("type"@, Json::Str("llm_call_finished"@)),
            ("test"@, Json::Str(test@)),
            ("index"@, Json::UInt(index as u64)),
            ("endpoint"@, Json::Str(endpoint@)),
            ("model"@, Json::Str(model@)),
            ("purpose"@, Json::Str(purpose@)),
            ("ok"@, Json::Bool(ok)),
            ("duration_ms"@, Json::UInt(duration_ms as u64)),
            ("input_tokens"@, Json::UInt(input_tokens as u64)),
            ("output_tokens"@, Json::UInt(output_tokens as u64)),
            ("cost"@, cost_json(cost)),
            ("error"@, json::option_json(error)),
        ],
        TestEvent::TestFinished { test, passed, failed, skipped, duration_ms, cost, tokens, calls } => seq![
            ("type"@, Json::Str("test_finished"@)),
            ("test"@, Json::Str(test@)),
            ("passed"@, Json::UInt(passed as u64)),
            ("failed"@, Json::UInt(failed as u64)),
            ("skipped"@, Json::UInt(skipped as u64)),
            ("duration_ms"@, Json::UInt(duration_ms as u64)),
            ("cost"@, cost_json(cost)),
            ("tokens"@, Json::UInt(tokens as u64)),
            ("calls"@, Json::UInt(calls as u64)),
        ],
        TestEvent::RunFinished { tests_passed, tests_failed, steps_passed, steps_failed, steps_skipped, total_cost, total_tokens, total_calls } => seq![
            ("type"@, Json::Str("run_finished"@)),
            ("tests_passed"@, Json::UInt(tests_passed as u64)),
            ("tests_failed"@, Json::UInt(tests_failed as u64)),
            ("steps_passed"@, Json::UInt(steps_passed as u64)),
            ("steps_failed"@, Json::UInt(steps_failed as u64)),
            ("steps_skipped"@, Json::UInt(steps_skipped as u64)),
            ("total_cost"@, cost_json(total_cost)),
            ("total_tokens"@, Json::UInt(total_tokens as u64)),
            ("total_calls"@, Json::UInt(total_calls as u64)),
        ],
        TestEvent::Warning { message } => seq![
            ("type"@, Json::Str("warning"@)),
            ("message"@, Json::Str(message@)),
        ],
    }
}

/// The members of the JSON object of an event.
fn event_entries(event: &TestEvent) -> (r: Vec<(String, serde_json::Value)>)
    ensures
        json::entries_of(r@) == event_members(*event),
{
    let r = match event {
        TestEvent::RunStarted { total_tests } => vec![
            json::entry("type", json::json_string("run_started")),
            json::entry("total_tests", json::json_uint(*total_tests as u64)),
        ],
        TestEvent::TestStarted { test } => vec![
            json::entry("type", json::json_string("test_started")),
            json::entry("test", json::json_string(test.as_str())),
        ],
        TestEvent::StepStarted { test, index, label } => vec![
            json::entry("type", json::json_string("step_started")),
            json::entry("test", json::json_string(test.as_str())),
            json::entry("index", json::json_uint(*index as u64)),
            json::entry("label", json::json_string(label.as_str())),
        ],
        TestEvent::StepFinished { test, index, label, status, duration_ms, message, diagnostics, screenshot } => vec![
            json::entry("type", json::json_string("step_finished")),
            json::entry("test", json::json_string(test.as_str())),
            json::entry("index", json::json_uint(*index as u64)),
            json::entry("label", json::json_string(label.as_str())),
            json::entry("status", json::json_string(status.as_str())),
            json::entry("duration_ms", json::json_uint(*duration_ms as u64)),
            json::entry("message", json::json_string(message.as_str())),
            json::entry("diagnostics", json::json_option(diagnostics)),
            json::entry("screenshot", json::json_option(screenshot)),
        ],
        TestEvent::LlmCallStarted { test, index, endpoint, model, purpose } => vec![
            json::entry("type", json::json_string("llm_call_started")),
            json::entry("test", json::json_string(test.as_str())),
            json::entry("index", json::json_uint(*index as u64)),
            json::entry("endpoint", json::json_string(endpoint.as_str())),
            json::entry("model", json::json_string(model.as_str())),
            json::entry("purpose", json::json_string(purpose.as_str())),
        ],
        TestEvent::LlmCallFinished { test, index, endpoint, model, purpose, ok, duration_ms, input_tokens, output_tokens, cost, error } => vec![
            json::entry("type", json::json_string("llm_call_finished")),
            json::entry("test", json::json_string(test.as_str())),
            json::entry("index", json::json_uint(*index as u64)),
            json::entry("endpoint", json::json_string(endpoint.as_str())),
            json::entry("model", json::json_string(model.as_str())),
            json::entry("purpose", json::json_string(purpose.as_str())),
            json::entry("ok", json::json_bool(*ok)),
            json::entry("duration_ms", json::json_uint(*duration_ms as u64)),
            json::entry("input_tokens", json::json_uint(*input_tokens as u64)),
            json::entry("output_tokens", json::json_uint(*output_tokens as u64)),
            json::entry("cost", cost_value(*cost)),
            json::entry("error", json::json_option(error)),
        ],
        TestEvent::TestFinished { test, passed, failed, skipped, duration_ms, cost, tokens, calls } => vec![
            json::entry("type", json::json_string("test_finished")),
            json::entry("test", json::json_string(test.as_str())),
            json::entry("passed", json::json_uint(*passed as u64)),
            json::entry("failed", json::json_uint(*failed as u64)),
            json::entry("skipped", json::json_uint(*skipped as u64)),
            json::entry("duration_ms", json::json_uint(*duration_ms as u64)),
            json::entry("cost", cost_value(*cost)),
            json::entry("tokens", json::json_uint(*tokens as u64)),
            json::entry("calls", json::json_uint(*calls as u64)),
        ],
        TestEvent::RunFinished { tests_passed, tests_failed, steps_passed, steps_failed, steps_skipped, total_cost, total_tokens, total_calls } => vec![
            json::entry("type", json::json_string("run_finished")),
            json::entry("tests_passed", json::json_uint(*tests_passed as u64)),
            json::entry("tests_failed", json::json_uint(*tests_failed as u64)),
            json::entry("steps_passed", json::json_uint(*steps_passed as u64)),
            json::entry("steps_failed", json::json_uint(*steps_failed as u64)),
            json::entry("steps_skipped", json::json_uint(*steps_skipped as u64)),
            json::entry("total_cost", cost_value(*total_cost)),
            json::entry("total_tokens", json::json_uint(*total_tokens as u64)),
            json::entry("total_calls", json::json_uint(*total_calls as u64)),
        ],
        TestEvent::Warning { message } => vec![
            json::entry("type", json::json_string("warning")),
            json::entry("message", json::json_string(message.as_str())),
        ],
    };
    assert(json::entries_of(r@) =~= event_members(*event));
    r
}

/// The JSON object of an event.
pub fn event_json(event: &TestEvent) -> (r: serde_json::Value)
    ensures
        json::json_of(r) == json::object(event_members(*event)),
{
    json::json_object(event_entries(event))
}

/// The log line of an event: its JSON object with the time `ts` in epoch
/// milliseconds, and a line end.
pub open spec fn line_of(event: TestEvent, ts: u64) -> Seq<char> {
    json::json_text(json::object(event_members(event).push(("ts"@, Json::UInt(ts))))) + "\n"@
}

/// The log line of an event: its JSON object with the time `ts` in epoch
/// milliseconds, and a line end.
pub fn log_line(event: &TestEvent, ts: u64) -> (r: String)
    ensures
        r@ == line_of(*event, ts),
        text::is_line(r@),
{
    let mut entries = event_entries(event);
    entries.push(json::entry("ts", json::json_uint(ts)));
    assert(json::entries_of(entries@) =~= event_members(*event).push(("ts"@, Json::UInt(ts))));
    let mut line = json::value_text(&json::json_object(entries));
    proof {
        text::lemma_line(line@);
    }
    line.append("\n");
    line
}

/// Every event says what it is.
pub proof fn law_events_say_what_they_are(event: TestEvent)
    ensures
        json::object(event_members(event)).member("type"@) == Json::Str(
            match event {
                TestEvent::RunStarted { .. } => "run_started"@,
                TestEvent::TestStarted { .. } => "test_started"@,
                TestEvent::StepStarted { .. } => "step_started"@,
                TestEvent::StepFinished { .. } => "step_finished"@,
                TestEvent::LlmCallStarted { .. } => "llm_call_started"@,
                TestEvent::LlmCallFinished { .. } => "llm_call_finished"@,
                TestEvent::TestFinished { .. } => "test_finished"@,
                TestEvent::RunFinished { .. } => "run_finished"@,
                TestEvent::Warning { .. } => "warning"@,
            },
        ),
{
    lemma_event_keys();
    json::lemma_member(event_members(event), 0);
}

/// The keys of events are told apart by their lengths and letters.
proof fn lemma_event_keys()
    ensures
        "type"@.len() == 4 && "type"@[1] == 'y',
        "test"@.len() == 4 && "test"@[1] == 'e',
        "index"@.len() == 5 && "label"@.len() == 5 && "model"@.len() == 5 && "error"@.len() == 5
            && "calls"@.len() == 5,
        "index"@[0] == 'i' && "label"@[0] == 'l' && "model"@[0] == 'm' && "error"@[0] == 'e'
            && "calls"@[0] == 'c',
        "status"@.len() == 6 && "passed"@.len() == 6 && "failed"@.len() == 6 && "tokens"@.len()
            == 6,
        "status"@[0] == 's' && "passed"@[0] == 'p' && "failed"@[0] == 'f' && "tokens"@[0] == 't',
        "message"@.len() == 7 && "skipped"@.len() == 7 && "purpose"@.len() == 7,
        "message"@[0] == 'm' && "skipped"@[0] == 's' && "purpose"@[0] == 'p',
        "endpoint"@.len() == 8,
        "screenshot"@.len() == 10 && "total_cost"@.len() == 10,
        "screenshot"@[0] == 's' && "total_cost"@[0] == 't',
        "duration_ms"@.len() == 11 && "diagnostics"@.len() == 11 && "total_tests"@.len() == 11
            && "total_calls"@.len() == 11,
        "duration_ms"@[1] == 'u' && "diagnostics"@[1] == 'i' && "total_tests"@[0] == 't'
            && "total_calls"@[0] == 't',
        "input_tokens"@.len() == 12 && "tests_passed"@.len() == 12 && "tests_failed"@.len() == 12
            && "steps_passed"@.len() == 12 && "steps_failed"@.len() == 12 && "total_tokens"@.len()
            == 12,
        "input_tokens"@[0] == 'i' && "tests_passed"@[6] == 'p' && "tests_failed"@[6] == 'f'
            && "steps_passed"@[6] == 'p' && "steps_failed"@[6] == 'f' && "total_tokens"@[6] == 't',
        "tests_passed"@[0] == 't' && "tests_failed"@[0] == 't' && "steps_passed"@[0] == 's'
            && "steps_failed"@[0] == 's',
        "output_tokens"@.len() == 13 && "steps_skipped"@.len() == 13,
        "output_tokens"@[0] == 'o' && "steps_skipped"@[0] == 's',
        "ok"@.len() == 2 && "cost"@.len() == 4 && "cost"@[0] == 'c',
        "test"@[0] == 't' && "type"@[0] == 't',
{
    reveal_strlit("type");
    reveal_strlit("test");
    reveal_strlit("index");
    reveal_strlit("label");
    reveal_strlit("model");
    reveal_strlit("error");
    reveal_strlit("calls");
    reveal_strlit("status");
    reveal_strlit("passed");
    reveal_strlit("failed");
    reveal_strlit("tokens");
    reveal_strlit("message");
    reveal_strlit("skipped");
    reveal_strlit("purpose");
    reveal_strlit("endpoint");
    reveal_strlit("screenshot");
    reveal_strlit("total_cost");
    reveal_strlit("duration_ms");
    reveal_strlit("diagnostics");
    reveal_strlit("total_tests");
    reveal_strlit("total_calls");
    reveal_strlit("input_tokens");
    reveal_strlit("tests_passed");
    reveal_strlit("tests_failed");
    reveal_strlit("steps_passed");
    reveal_strlit("steps_failed");
    reveal_strlit("total_tokens");
    reveal_strlit("output_tokens");
    reveal_strlit("steps_skipped");
    reveal_strlit("ok");
    reveal_strlit("cost");
}

/// A finished step is written with its test, its place, how it ended and
/// what it said.
#[verifier::rlimit(60)]
pub proof fn law_finished_steps_are_written_whole(event: TestEvent)
    requires
        event is StepFinished,
    ensures
        event matches TestEvent::StepFinished {
            test,
            index,
            label,
            status,
            duration_ms,
            message,
            diagnostics,
            screenshot,
        } && {
            let j = json::object(event_members(event));
            &&& j.member("test"@) == Json::Str(test@)
            &&& j.member("index"@) == Json::UInt(index as u64)
            &&& j.member("label"@) == Json::Str(label@)
            &&& status == StepStatus::Passed ==> j.member("status"@) == Json::Str("passed"@)
            &&& status == StepStatus::Failed ==> j.member("status"@) == Json::Str("failed"@)
            &&& status == StepStatus::Skipped ==> j.member("status"@) == Json::Str("skipped"@)
            &&& j.member("duration_ms"@) == Json::UInt(duration_ms)
            &&& j.member("message"@) == Json::Str(message@)
            &&& screenshot matches Some(p) ==> j.member("screenshot"@) == Json::Str(p@)
            &&& screenshot is None ==> j.member("screenshot"@) is Null
            &&& diagnostics matches Some(d) ==> j.member("diagnostics"@) == Json::Str(d@)
        },
{
    lemma_event_keys();
    let all = event_members(event);
    json::lemma_member(all, 1);
    json::lemma_member(all, 2);
    json::lemma_member(all, 3);
    json::lemma_member(all, 4);
    json::lemma_member(all, 5);
    json::lemma_member(all, 6);
    json::lemma_member(all, 7);
    json::lemma_member(all, 8);
}

/// A finished call is written with where it went, whether it was answered, and
/// what it used.
#[verifier::rlimit(60)]
pub proof fn law_finished_calls_are_written_whole(event: TestEvent)
    requires
        event is LlmCallFinished,
    ensures
        event matches TestEvent::LlmCallFinished {
            endpoint,
            model,
            purpose,
            ok,
            duration_ms,
            input_tokens,
            output_tokens,
            cost,
            error,
            ..
        } && {
            let j = json::object(event_members(event));
            &&& j.member("endpoint"@) == Json::Str(endpoint@)
            &&& j.member("model"@) == Json::Str(model@)
            &&& j.member("purpose"@) == Json::Str(purpose@)
            &&& j.member("ok"@) == Json::Bool(ok)
            &&& j.member("duration_ms"@) == Json::UInt(duration_ms)
            &&& j.member("input_tokens"@) == Json::UInt(input_tokens)
            &&& j.member("output_tokens"@) == Json::UInt(output_tokens)
            &&& j.member("cost"@) == cost_json(cost)
            &&& error matches Some(e) ==> j.member("error"@) == Json::Str(e@)
            &&& error is None ==> j.member("error"@) is Null
        },
{
    lemma_event_keys();
    let all = event_members(event);
    json::lemma_member(all, 3);
    json::lemma_member(all, 4);
    json::lemma_member(all, 5);
    json::lemma_member(all, 6);
    json::lemma_member(all, 7);
    json::lemma_member(all, 8);
    json::lemma_member(all, 9);
    json::lemma_member(all, 10);
    json::lemma_member(all, 11);
}

/// The end of a run is written with every figure under its own name.
#[verifier::rlimit(60)]
pub proof fn law_finished_runs_are_written_whole(event: TestEvent)
    requires
        event is RunFinished,
    ensures
        event matches TestEvent::RunFinished {
            tests_passed,
            tests_failed,
            steps_passed,
            steps_failed,
            steps_skipped,
            total_cost,
            total_tokens,
            total_calls,
        } && {
            let j = json::object(event_members(event));
            &&& j.member("tests_passed"@) == Json::UInt(tests_passed as u64)
            &&& j.member("tests_failed"@) == Json::UInt(tests_failed as u64)
            &&& j.member("steps_passed"@) == Json::UInt(steps_passed as u64)
            &&& j.member("steps_failed"@) == Json::UInt(steps_failed as u64)
            &&& j.member("steps_skipped"@) == Json::UInt(steps_skipped as u64)
            &&& j.member("total_cost"@) == cost_json(total_cost)
            &&& j.member("total_tokens"@) == Json::UInt(total_tokens)
            &&& j.member("total_calls"@) == Json::UInt(total_calls)
        },
{
    lemma_event_keys();
    let all = event_members(event);
    json::lemma_member(all, 1);
    json::lemma_member(all, 2);
    json::lemma_member(all, 3);
    json::lemma_member(all, 4);
    json::lemma_member(all, 5);
    json::lemma_member(all, 6);
    json::lemma_member(all, 7);
    json::lemma_member(all, 8);
}

/// The end of a test is written with every figure under its own name.
#[verifier::rlimit(60)]
pub proof fn law_finished_tests_are_written_whole(event: TestEvent)
    requires
        event is TestFinished,
    ensures
        event matches TestEvent::TestFinished {
            test,
            passed,
            failed,
            skipped,
            duration_ms,
            cost,
            tokens,
            calls,
        } && {
            let j = json::object(event_members(event));
            &&& j.member("test"@) == Json::Str(test@)
            &&& j.member("passed"@) == Json::UInt(passed as u64)
            &&& j.member("failed"@) == Json::UInt(failed as u64)
            &&& j.member("skipped"@) == Json::UInt(skipped as u64)
            &&& j.member("duration_ms"@) == Json::UInt(duration_ms)
            &&& j.member("cost"@) == cost_json(cost)
            &&& j.member("tokens"@) == Json::UInt(tokens)
            &&& j.member("calls"@) == Json::UInt(calls)
        },
{
    lemma_event_keys();
    let all = event_members(event);
    json::lemma_member(all, 1);
    json::lemma_member(all, 2);
    json::lemma_member(all, 3);
    json::lemma_member(all, 4);
    json::lemma_member(all, 5);
    json::lemma_member(all, 6);
    json::lemma_member(all, 7);
    json::lemma_member(all, 8);
}

} // verus!
