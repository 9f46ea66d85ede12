//! Report sinks: console, NDJSON, JUnit XML, GitHub annotations, Perfetto trace.
//!
//! The [`Reporter`] is the single place test-run output flows through. The
//! runner emits [`TestEvent`]s; the reporter redacts each and renders it for
//! every enabled sink. It does no output itself: [`Reporter::emit`] returns
//! what goes to the console, to the log and to standard output, and
//! [`junit_xml`], [`Reporter::trace_document`] and [`github_summary`] give the
//! contents of the report files.
use vstd::prelude::*;
use vstd::string::StringExecFns;
use crate::costs::{EndpointUsage, UsageSnapshot};
use crate::events;
use crate::events::{StepStatus, TestEvent};
use crate::json;
use crate::numbers;
use crate::redact;
use crate::redact::{ObservedRegistry, Redactor};
use crate::scenario::Picodollars;
use crate::text;
use crate::trace;
use crate::trace::TraceLog;

verus! {

/// Console verbosity level. Later = more output.
#[derive(Debug, Clone, Copy, PartialEq, Eq, PartialOrd, Ord, Structural)]
pub enum Level {
    /// Only failures.
    Error,
    /// Failures, warnings, and the run summary.
    Warn,
    /// Default: plus test and step results.
    Info,
    /// Plus LLM call details and step starts.
    Debug,
    /// Everything.
    Trace,
}

impl Level {
    /// The position of the level, from the least output to the most.
    pub open spec fn rank(self) -> nat {
        match self {
            Level::Error => 0,
            Level::Warn => 1,
            Level::Info => 2,
            Level::Debug => 3,
            Level::Trace => 4,
        }
    }

    /// The position of the level, from the least output to the most.
    fn position(self) -> (r: u8)
        ensures
            r == self.rank(),
    {
        match self {
            Level::Error => 0,
            Level::Warn => 1,
            Level::Info => 2,
            Level::Debug => 3,
            Level::Trace => 4,
        }
    }

    /// Maps `-q`/`-v` flag counts to a level. Quiet wins over verbose.
    pub fn from_flags(quiet: u8, verbose: u8) -> (r: Self)
        ensures
            quiet == 0 && verbose == 0 ==> r == Level::Info,
            quiet == 0 && verbose == 1 ==> r == Level::Debug,
            quiet == 0 && verbose >= 2 ==> r == Level::Trace,
            quiet == 1 ==> r == Level::Warn,
            quiet >= 2 ==> r == Level::Error,
    {
        match (quiet, verbose) {
            (0, 0) => Level::Info,
            (0, 1) => Level::Debug,
            (0, _) => Level::Trace,
            (1, _) => Level::Warn,
            _ => Level::Error,
        }
    }

    /// Whether output of the given level is shown at this level.
    pub fn shows(self, level: Self) -> (r: bool)
        ensures
            r == (self.rank() >= level.rank()),
    {
        self.position() >= level.position()
    }
}

impl Default for Level {
    fn default() -> (r: Self)
        ensures
            r == Level::Info,
    {
        Level::Info
    }
}

/// Color output mode for the console sink.
#[derive(Debug, Clone, Copy, PartialEq, Eq, Structural)]
pub enum ColorMode {
    /// Use colors when stderr is a TTY and `NO_COLOR` is unset.
    Auto,
    /// Always emit ANSI colors.
    Always,
    /// Never emit ANSI colors.
    Never,
}

impl Default for ColorMode {
    fn default() -> (r: Self)
        ensures
            r == ColorMode::Auto,
    {
        ColorMode::Auto
    }
}

/// Decides whether the console sink should emit ANSI codes, given whether
/// `NO_COLOR` is set and whether stderr is a terminal.
pub fn detect_color(mode: ColorMode, no_color: bool, terminal: bool) -> (r: bool)
    ensures
        r == match mode {
            ColorMode::Always => true,
            ColorMode::Never => false,
            ColorMode::Auto => !no_color && terminal,
        },
{
    match mode {
        ColorMode::Always => true,
        ColorMode::Never => false,
        ColorMode::Auto => !no_color && terminal,
    }
}

/// Minimal ANSI palette; everything degrades to plain text when disabled.
#[derive(Debug, Clone, Copy)]
pub struct Palette {
    /// Whether ANSI codes are emitted.
    pub enabled: bool,
}

impl Palette {
    /// The text in the given color.
    pub open spec fn painted(self, s: Seq<char>, code: Seq<char>) -> Seq<char> {
        if self.enabled {
            "\x1b["@ + code + "m"@ + s + "\x1b[0m"@
        } else {
            s
        }
    }

    /// The text in the given color.
    pub fn paint(self, s: &str, code: &str) -> (r: String)
        ensures
            r@ == self.painted(s@, code@),
    {
        if self.enabled {
            let mut out = "\x1b[".to_owned();
            out.append(code);
            out.append("m");
            out.append(s);
            out.append("\x1b[0m");
            out
        } else {
            s.to_owned()
        }
    }

    /// The text in green.
    pub fn green(self, s: &str) -> (r: String)
        ensures
            r@ == self.painted(s@, "32"@),
    {
        self.paint(s, "32")
    }

    /// The text in red.
    pub fn red(self, s: &str) -> (r: String)
        ensures
            r@ == self.painted(s@, "31"@),
    {
        self.paint(s, "31")
    }

    /// The text in yellow.
    pub fn yellow(self, s: &str) -> (r: String)
        ensures
            r@ == self.painted(s@, "33"@),
    {
        self.paint(s, "33")
    }

    /// The text in cyan.
    pub fn cyan(self, s: &str) -> (r: String)
        ensures
            r@ == self.painted(s@, "36"@),
    {
        self.paint(s, "36")
    }

    /// The text dimmed.
    pub fn dim(self, s: &str) -> (r: String)
        ensures
            r@ == self.painted(s@, "2"@),
    {
        self.paint(s, "2")
    }
}

/// Human-friendly duration: `431ms` or `1.2s`.
pub open spec fn duration_text(ms: u64) -> Seq<char> {
    if ms < 1000 {
        text::dec(ms as nat) + "ms"@
    } else {
        numbers::fixed(ms as nat, 1000, 1) + "s"@
    }
}

/// Human-friendly duration: `431ms` or `1.2s`.
pub fn format_duration(ms: u64) -> (r: String)
    ensures
        r@ == duration_text(ms),
{
    let mut s;
    if ms < 1000 {
        s = text::decimal(ms as u128);
        s.append("ms");
    } else {
        s = numbers::seconds(ms, 1);
        s.append("s");
    }
    s
}

/// An amount in dollars with four decimals.
pub open spec fn dollars4(cost: Picodollars) -> Seq<char> {
    numbers::fixed(cost as nat, 1_000_000_000_000, 4)
}

/// The level from which an event is shown on the console.
pub open spec fn event_level(event: TestEvent) -> Level {
    match event {
        TestEvent::RunStarted { .. } => Level::Debug,
        TestEvent::TestStarted { .. } => Level::Info,
        TestEvent::StepStarted { .. } => Level::Debug,
        TestEvent::StepFinished { status, .. } => match status {
            StepStatus::Failed => Level::Error,
            StepStatus::Skipped => Level::Warn,
            StepStatus::Passed => Level::Info,
        },
        TestEvent::LlmCallStarted { .. } => Level::Debug,
        TestEvent::LlmCallFinished { ok, .. } => if ok {
            Level::Debug
        } else {
            Level::Warn
        },
        TestEvent::TestFinished { .. } => Level::Info,
        TestEvent::RunFinished { .. } => Level::Warn,
        TestEvent::Warning { .. } => Level::Warn,
    }
}

/// The text, if there is one, behind `lead`.
pub open spec fn led(lead: Seq<char>, value: Option<String>) -> Seq<char> {
    match value {
        Some(v) => lead + v@,
        None => Seq::empty(),
    }
}

/// The icon of a step outcome.
pub open spec fn step_icon(p: Palette, status: StepStatus) -> Seq<char> {
    match status {
        StepStatus::Passed => p.painted("✓"@, "32"@),
        StepStatus::Failed => p.painted("✗"@, "31"@),
        StepStatus::Skipped => p.painted("–"@, "33"@),
    }
}

/// What the console shows of an event.
pub open spec fn event_text(event: TestEvent, p: Palette) -> Seq<char> {
    match event {
        TestEvent::RunStarted { total_tests } => {
            "run started: "@ + text::dec(total_tests as nat) + " test(s)"@
        },
        TestEvent::TestStarted { test } => p.painted("Test: "@ + test@, "36"@),
        TestEvent::StepStarted { label, .. } => "  - "@ + label@,
        TestEvent::StepFinished {
            label,
            message,
            duration_ms,
            status,
            diagnostics,
            screenshot,
            ..
        } => {
            "  "@ + step_icon(p, status) + " "@ + label@ + " — "@ + message@ + " ("@ + p.painted(
                duration_text(duration_ms),
                "2"@,
            ) + ")"@ + led("\n"@, diagnostics) + led("\n      screenshot: "@, screenshot)
        },
        TestEvent::LlmCallStarted { endpoint, model, purpose, .. } => {
            "      llm("@ + purpose@ + "): "@ + endpoint@ + " ("@ + model@ + ") ..."@
        },
        TestEvent::LlmCallFinished {
            endpoint,
            model,
            purpose,
            ok,
            duration_ms,
            input_tokens,
            output_tokens,
            cost,
            error,
            ..
        } => {
            "      llm("@ + purpose@ + "): "@ + endpoint@ + " ("@ + model@ + ") "@ + (if ok {
                p.painted("ok"@, "32"@)
            } else {
                p.painted("failed"@, "31"@)
            }) + " "@ + p.painted(duration_text(duration_ms), "2"@) + " | "@ + text::dec(
                input_tokens as nat,
            ) + " in / "@ + text::dec(output_tokens as nat) + " out | $"@ + dollars4(cost) + led(
                " — "@,
                error,
            )
        },
        TestEvent::TestFinished {
            test,
            passed,
            failed,
            skipped,
            duration_ms,
            cost,
            tokens,
            calls,
        } => {
            "Test: "@ + test@ + " — "@ + verdict_text(p, failed == 0 && passed > 0) + " ("@
                + p.painted(duration_text(duration_ms), "2"@) + ", $"@ + dollars4(cost) + ", "@
                + text::dec(tokens as nat) + " tokens, "@ + text::dec(calls as nat) + " calls, "@
                + text::dec(passed as nat) + "+"@ + text::dec(failed as nat) + "+"@ + text::dec(
                skipped as nat,
            ) + " steps)"@
        },
        TestEvent::RunFinished {
            tests_passed,
            tests_failed,
            steps_passed,
            steps_failed,
            steps_skipped,
            total_cost,
            total_tokens,
            total_calls,
        } => {
            "run "@ + verdict_text(p, tests_failed == 0) + ": tests "@ + text::dec(
                tests_passed as nat,
            ) + " passed, "@ + text::dec(tests_failed as nat) + " failed | steps "@ + text::dec(
                steps_passed as nat,
            ) + " passed, "@ + text::dec(steps_failed as nat) + " failed, "@ + text::dec(
                steps_skipped as nat,
            ) + " skipped | $"@ + dollars4(total_cost) + " | "@ + text::dec(total_tokens as nat)
                + " tokens | "@ + text::dec(total_calls as nat) + " calls"@
        },
        TestEvent::Warning { message } => p.painted("  ! "@ + message@, "33"@),
    }
}

/// `passed` in green or `failed` in red.
pub open spec fn verdict_text(p: Palette, passed: bool) -> Seq<char> {
    if passed {
        p.painted("passed"@, "32"@)
    } else {
        p.painted("failed"@, "31"@)
    }
}

/// `passed` in green or `failed` in red.
fn verdict(p: Palette, passed: bool) -> (r: String)
    ensures
        r@ == verdict_text(p, passed),
{
    if passed {
        p.green("passed")
    } else {
        p.red("failed")
    }
}

/// Appends the text, if there is one, behind `lead`.
fn append_led(out: &mut String, lead: &str, value: &Option<String>)
    ensures
        final(out)@ == old(out)@ + led(lead@, *value),
{
    match value {
        Some(v) => {
            out.append(lead);
            out.append(v.as_str());
            assert(out@ =~= old(out)@ + led(lead@, *value));
        },
        None => {
            assert(out@ =~= old(out)@ + led(lead@, *value));
        },
    }
}

/// Appends a number.
fn append_number(out: &mut String, n: u128)
    ensures
        final(out)@ == old(out)@ + text::dec(n as nat),
{
    out.append(text::decimal(n).as_str());
}

/// Appends a duration, dimmed.
fn append_duration(out: &mut String, p: Palette, ms: u64)
    ensures
        final(out)@ == old(out)@ + p.painted(duration_text(ms), "2"@),
{
    out.append(p.dim(format_duration(ms).as_str()).as_str());
}

/// Appends an amount in dollars with four decimals.
fn append_dollars(out: &mut String, cost: Picodollars)
    ensures
        final(out)@ == old(out)@ + dollars4(cost),
{
    out.append(numbers::dollars(cost, 4).as_str());
}

/// Renders one event as its console text and the level from which it is
/// shown.
pub fn format_event(event: &TestEvent, palette: Palette) -> (r: (Level, String))
    ensures
        r.0 == event_level(*event),
        r.1@ == event_text(*event, palette),
{
    match event {
        TestEvent::RunStarted { total_tests } => {
            let mut s = "run started: ".to_owned();
            append_number(&mut s, *total_tests as u128);
            s.append(" test(s)");
            (Level::Debug, s)
        },
        TestEvent::TestStarted { test } => {
            let mut s = "Test: ".to_owned();
            s.append(test.as_str());
            (Level::Info, palette.cyan(s.as_str()))
        },
        TestEvent::StepStarted { label, .. } => {
            let mut s = "  - ".to_owned();
            s.append(label.as_str());
            (Level::Debug, s)
        },
        TestEvent::StepFinished {
            label,
            message,
            duration_ms,
            status,
            diagnostics,
            screenshot,
            ..
        } => {
            let level = match status {
                StepStatus::Failed => Level::Error,
                StepStatus::Skipped => Level::Warn,
                StepStatus::Passed => Level::Info,
            };
            let icon = match status {
                StepStatus::Passed => palette.green("✓"),
                StepStatus::Failed => palette.red("✗"),
                StepStatus::Skipped => palette.yellow("–"),
            };
            let mut s = "  ".to_owned();
            s.append(icon.as_str());
            s.append(" ");
            s.append(label.as_str());
            s.append(" — ");
            s.append(message.as_str());
            s.append(" (");
            append_duration(&mut s, palette, *duration_ms);
            s.append(")");
            append_led(&mut s, "\n", diagnostics);
            append_led(&mut s, "\n      screenshot: ", screenshot);
            (level, s)
        },
        TestEvent::LlmCallStarted { endpoint, model, purpose, .. } => {
            let mut s = "      llm(".to_owned();
            s.append(purpose.as_str());
            s.append("): ");
            s.append(endpoint.as_str());
            s.append(" (");
            s.append(model.as_str());
            s.append(") ...");
            (Level::Debug, s)
        },
        TestEvent::LlmCallFinished {
            endpoint,
            model,
            purpose,
            ok,
            duration_ms,
            input_tokens,
            output_tokens,
            cost,
            error,
            ..
        } => {
            let status = if *ok {
                palette.green("ok")
            } else {
                palette.red("failed")
            };
            let mut s = "      llm(".to_owned();
            s.append(purpose.as_str());
            s.append("): ");
            s.append(endpoint.as_str());
            s.append(" (");
            s.append(model.as_str());
            s.append(") ");
            s.append(status.as_str());
            s.append(" ");
            append_duration(&mut s, palette, *duration_ms);
            s.append(" | ");
            append_number(&mut s, *input_tokens as u128);
            s.append(" in / ");
            append_number(&mut s, *output_tokens as u128);
            s.append(" out | $");
            append_dollars(&mut s, *cost);
            append_led(&mut s, " — ", error);
            let level = if *ok {
                Level::Debug
            } else {
                Level::Warn
            };
            (level, s)
        },
        TestEvent::TestFinished {
            test,
            passed,
            failed,
            skipped,
            duration_ms,
            cost,
            tokens,
            calls,
        } => {
            let mut s = "Test: ".to_owned();
            s.append(test.as_str());
            s.append(" — ");
            s.append(verdict(palette, *failed == 0 && *passed > 0).as_str());
            s.append(" (");
            append_duration(&mut s, palette, *duration_ms);
            s.append(", $");
            append_dollars(&mut s, *cost);
            s.append(", ");
            append_number(&mut s, *tokens as u128);
            s.append(" tokens, ");
            append_number(&mut s, *calls as u128);
            s.append(" calls, ");
            append_number(&mut s, *passed as u128);
            s.append("+");
            append_number(&mut s, *failed as u128);
            s.append("+");
            append_number(&mut s, *skipped as u128);
            s.append(" steps)");
            (Level::Info, s)
        },
        TestEvent::RunFinished {
            tests_passed,
            tests_failed,
            steps_passed,
            steps_failed,
            steps_skipped,
            total_cost,
            total_tokens,
            total_calls,
        } => {
            let mut s = "run ".to_owned();
            s.append(verdict(palette, *tests_failed == 0).as_str());
            s.append(": tests ");
            append_number(&mut s, *tests_passed as u128);
            s.append(" passed, ");
            append_number(&mut s, *tests_failed as u128);
            s.append(" failed | steps ");
            append_number(&mut s, *steps_passed as u128);
            s.append(" passed, ");
            append_number(&mut s, *steps_failed as u128);
            s.append(" failed, ");
            append_number(&mut s, *steps_skipped as u128);
            s.append(" skipped | $");
            append_dollars(&mut s, *total_cost);
            s.append(" | ");
            append_number(&mut s, *total_tokens as u128);
            s.append(" tokens | ");
            append_number(&mut s, *total_calls as u128);
            s.append(" calls");
            (Level::Warn, s)
        },
        TestEvent::Warning { message } => {
            let mut s = "  ! ".to_owned();
            s.append(message.as_str());
            (Level::Warn, palette.yellow(s.as_str()))
        },
    }
}

/// `s` without raw `%`, CR or LF.
pub open spec fn data_escaped(s: Seq<char>) -> Seq<char> {
    text::replaced(text::replaced(text::replaced(s, "%"@, "%25"@), "\r"@, "%0D"@), "\n"@, "%0A"@)
}

/// `s` without raw `%`, CR, LF, `:` or `,`.
pub open spec fn property_escaped(s: Seq<char>) -> Seq<char> {
    text::replaced(text::replaced(data_escaped(s), ":"@, "%3A"@), ","@, "%2C"@)
}

/// `s` without the characters that XML attribute values may not hold.
pub open spec fn attr_escaped(s: Seq<char>) -> Seq<char> {
    text::replaced(
        text::replaced(
            text::replaced(
                text::replaced(text::replaced(s, "&"@, "&amp;"@), "<"@, "&lt;"@),
                ">"@,
                "&gt;"@,
            ),
            "\""@,
            "&quot;"@,
        ),
        "'"@,
        "&apos;"@,
    )
}

/// Escapes a string for the data section of a GitHub workflow command.
pub fn escape_data(s: &str) -> (r: String)
    ensures
        r@ == data_escaped(s@),
{
    let a = text::replace_text(s, "%", "%25");
    let b = text::replace_text(a.as_str(), "\r", "%0D");
    text::replace_text(b.as_str(), "\n", "%0A")
}

/// Escapes a string for the property section of a GitHub workflow command.
pub fn escape_property(s: &str) -> (r: String)
    ensures
        r@ == property_escaped(s@),
{
    let a = escape_data(s);
    let b = text::replace_text(a.as_str(), ":", "%3A");
    text::replace_text(b.as_str(), ",", "%2C")
}

/// Escapes a string for use in an XML attribute value.
pub fn esc_attr(s: &str) -> (r: String)
    ensures
        r@ == attr_escaped(s@),
{
    let a = text::replace_text(s, "&", "&amp;");
    let b = text::replace_text(a.as_str(), "<", "&lt;");
    let c = text::replace_text(b.as_str(), ">", "&gt;");
    let d = text::replace_text(c.as_str(), "\"", "&quot;");
    text::replace_text(d.as_str(), "'", "&apos;")
}

/// The GitHub annotation of a failed step.
pub open spec fn annotation_of(event: TestEvent) -> Option<Seq<char>> {
    match event {
        TestEvent::StepFinished { test, label, status, message, screenshot, .. } => {
            if status == StepStatus::Failed {
                Some(
                    "::error "@ + (match screenshot {
                        Some(shot) => "file="@ + property_escaped(shot@) + ","@,
                        None => Seq::empty(),
                    }) + "title="@ + property_escaped(test@) + ":"@ + property_escaped(label@)
                        + "::"@ + data_escaped(message@),
                )
            } else {
                None
            }
        },
        _ => None,
    }
}

/// The GitHub annotation of a failed step; `None` for other events.
pub fn github_annotation(event: &TestEvent) -> (r: Option<String>)
    ensures
        match r {
            Some(line) => annotation_of(*event) == Some(line@),
            None => annotation_of(*event) is None,
        },
{
    if let TestEvent::StepFinished { test, label, status, message, screenshot, .. } = event {
        if *status == StepStatus::Failed {
            let mut s = "::error ".to_owned();
            let ghost head = s@;
            let mut file = String::new();
            if let Some(shot) = screenshot {
                file = "file=".to_owned();
                file.append(escape_property(shot.as_str()).as_str());
                file.append(",");
            }
            assert(screenshot is None ==> file@ =~= Seq::<char>::empty());
            s.append(file.as_str());
            s.append("title=");
            s.append(escape_property(test.as_str()).as_str());
            s.append(":");
            s.append(escape_property(label.as_str()).as_str());
            s.append("::");
            s.append(escape_data(message.as_str()).as_str());
            return Some(s);
        }
    }
    None
}

/// Aggregated run counts captured from the final `RunFinished` event.
#[derive(Debug, Clone, Copy)]
pub struct RunSummary {
    /// Tests that passed.
    pub tests_passed: u32,
    /// Tests that failed.
    pub tests_failed: u32,
    /// Steps that passed.
    pub steps_passed: u32,
    /// Steps that failed.
    pub steps_failed: u32,
    /// Steps that were skipped.
    pub steps_skipped: u32,
    /// Total cost.
    pub total_cost: Picodollars,
    /// Total tokens.
    pub total_tokens: u64,
    /// Total calls.
    pub total_calls: u64,
}

/// The counts of a `RunFinished` event.
pub open spec fn summary_of(event: TestEvent) -> Option<RunSummary> {
    match event {
        TestEvent::RunFinished {
            tests_passed,
            tests_failed,
            steps_passed,
            steps_failed,
            steps_skipped,
            total_cost,
            total_tokens,
            total_calls,
        } => Some(
            RunSummary {
                tests_passed,
                tests_failed,
                steps_passed,
                steps_failed,
                steps_skipped,
                total_cost,
                total_tokens,
                total_calls,
            },
        ),
        _ => None,
    }
}

/// The counts of a `RunFinished` event.
fn read_summary(event: &TestEvent) -> (r: Option<RunSummary>)
    ensures
        r == summary_of(*event),
{
    match event {
        TestEvent::RunFinished {
            tests_passed,
            tests_failed,
            steps_passed,
            steps_failed,
            steps_skipped,
            total_cost,
            total_tokens,
            total_calls,
        } => Some(
            RunSummary {
                tests_passed: *tests_passed,
                tests_failed: *tests_failed,
                steps_passed: *steps_passed,
                steps_failed: *steps_failed,
                steps_skipped: *steps_skipped,
                total_cost: *total_cost,
                total_tokens: *total_tokens,
                total_calls: *total_calls,
            },
        ),
        _ => None,
    }
}

/// What is appended to the GitHub step summary.
pub open spec fn summary_text(s: RunSummary) -> Seq<char> {
    "## llm-browser-testkit run: "@ + (if s.tests_failed == 0 {
        "✅ all tests passed"@
    } else {
        "❌ some tests failed"@
    }) + "\n\n- tests: "@ + text::dec(s.tests_passed as nat) + " passed, "@ + text::dec(
        s.tests_failed as nat,
    ) + " failed\n- steps: "@ + text::dec(s.steps_passed as nat) + " passed, "@ + text::dec(
        s.steps_failed as nat,
    ) + " failed, "@ + text::dec(s.steps_skipped as nat) + " skipped\n- cost: $"@ + dollars4(
        s.total_cost,
    ) + " | tokens: "@ + text::dec(s.total_tokens as nat) + " | calls: "@ + text::dec(
        s.total_calls as nat,
    ) + "\n"@
}

/// What is appended to the GitHub step summary.
pub fn github_summary(s: &RunSummary) -> (r: String)
    ensures
        r@ == summary_text(*s),
{
    let mut out = "## llm-browser-testkit run: ".to_owned();
    if s.tests_failed == 0 {
        out.append("✅ all tests passed");
    } else {
        out.append("❌ some tests failed");
    }
    out.append("\n\n- tests: ");
    append_number(&mut out, s.tests_passed as u128);
    out.append(" passed, ");
    append_number(&mut out, s.tests_failed as u128);
    out.append(" failed\n- steps: ");
    append_number(&mut out, s.steps_passed as u128);
    out.append(" passed, ");
    append_number(&mut out, s.steps_failed as u128);
    out.append(" failed, ");
    append_number(&mut out, s.steps_skipped as u128);
    out.append(" skipped\n- cost: $");
    append_dollars(&mut out, s.total_cost);
    out.append(" | tokens: ");
    append_number(&mut out, s.total_tokens as u128);
    out.append(" | calls: ");
    append_number(&mut out, s.total_calls as u128);
    out.append("\n");
    out
}

/// One test's JUnit result, accumulated while events stream in.
#[derive(Debug, Clone)]
pub struct JunitCase {
    /// Test name.
    pub name: String,
    /// Duration of the test.
    pub duration_ms: u64,
    /// One text per failed step.
    pub failures: Vec<String>,
    /// Number of skipped steps.
    pub skipped: u32,
}

/// What a [`JunitCase`] holds.
pub struct CaseView {
    /// Test name.
    pub name: Seq<char>,
    /// Duration of the test.
    pub duration_ms: u64,
    /// One text per failed step.
    pub failures: Seq<Seq<char>>,
    /// Number of skipped steps.
    pub skipped: nat,
}

impl View for JunitCase {
    type V = CaseView;

    open spec fn view(&self) -> CaseView {
        CaseView {
            name: self.name@,
            duration_ms: self.duration_ms,
            failures: text::views(self.failures@),
            skipped: self.skipped as nat,
        }
    }
}

/// What a list of cases holds.
pub open spec fn cases_view(cases: Seq<JunitCase>) -> Seq<CaseView> {
    cases.map_values(|c: JunitCase| c@)
}

/// A case of which nothing is known but its name.
pub open spec fn new_case(name: Seq<char>) -> CaseView {
    CaseView { name, duration_ms: 0, failures: Seq::empty(), skipped: 0 }
}

impl JunitCase {
    /// A case of which nothing is known but its name.
    pub fn new(name: String) -> (r: Self)
        ensures
            r@ == new_case(name@),
    {
        let r = JunitCase { name, duration_ms: 0, failures: Vec::new(), skipped: 0 };
        assert(r@.failures =~= Seq::<Seq<char>>::empty());
        r
    }
}

/// The position of the last case of that name.
pub open spec fn last_case(cases: Seq<CaseView>, name: Seq<char>) -> Option<int>
    decreases cases.len(),
{
    if cases.len() == 0 {
        None
    } else if cases.last().name == name {
        Some(cases.len() - 1)
    } else {
        last_case(cases.drop_last(), name)
    }
}

/// `cases` with one for `name`, behind the others where there was none.
pub open spec fn with_case(cases: Seq<CaseView>, name: Seq<char>) -> Seq<CaseView> {
    if last_case(cases, name) is Some {
        cases
    } else {
        cases.push(new_case(name))
    }
}

/// The position of the case of `name` in [`with_case`].
pub open spec fn case_at(cases: Seq<CaseView>, name: Seq<char>) -> int {
    match last_case(cases, name) {
        Some(i) => i,
        None => cases.len() as int,
    }
}

/// What is said of a failed step in the JUnit report.
pub open spec fn failure_text(
    label: Seq<char>,
    message: Seq<char>,
    diagnostics: Option<String>,
    screenshot: Option<String>,
) -> Seq<char> {
    label + ": "@ + message + led("\n"@, diagnostics) + led("\nscreenshot: "@, screenshot)
}

/// The JUnit cases after an event.
pub open spec fn junit_after(cases: Seq<CaseView>, event: TestEvent) -> Seq<CaseView> {
    match event {
        TestEvent::StepFinished { test, label, status, message, diagnostics, screenshot, .. } => {
            let all = with_case(cases, test@);
            let i = case_at(cases, test@);
            match status {
                StepStatus::Failed => all.update(
                    i,
                    CaseView {
                        failures: all[i].failures.push(
                            failure_text(label@, message@, diagnostics, screenshot),
                        ),
                        ..all[i]
                    },
                ),
                StepStatus::Skipped => all.update(
                    i,
                    CaseView { skipped: all[i].skipped + 1, ..all[i] },
                ),
                StepStatus::Passed => all,
            }
        },
        TestEvent::TestFinished { test, duration_ms, .. } => {
            let all = with_case(cases, test@);
            let i = case_at(cases, test@);
            all.update(i, CaseView { duration_ms, ..all[i] })
        },
        _ => cases,
    }
}

/// `last_case` gives a position with that name.
proof fn lemma_last_case(cases: Seq<CaseView>, name: Seq<char>)
    ensures
        match last_case(cases, name) {
            Some(i) => 0 <= i < cases.len() && cases[i].name == name,
            None => true,
        },
    decreases cases.len(),
{
    if cases.len() > 0 && cases.last().name != name {
        lemma_last_case(cases.drop_last(), name);
    }
}

/// Finds the JUnit case for a test, creating it on first sight.
fn locate_case(cases: &mut Vec<JunitCase>, test: &str) -> (r: usize)
    ensures
        cases_view(final(cases)@) == with_case(cases_view(old(cases)@), test@),
        r == case_at(cases_view(old(cases)@), test@),
        r < final(cases)@.len(),
{
    let ghost all = cases_view(cases@);
    proof {
        lemma_last_case(all, test@);
    }
    let mut i: usize = cases.len();
    assert(all.take(i as int) =~= all);
    while i > 0
        invariant
            all == cases_view(cases@),
            i <= cases@.len(),
            last_case(all, test@) == last_case(all.take(i as int), test@),
            *cases == *old(cases),
        decreases i,
    {
        assert(all.take(i as int).drop_last() =~= all.take(i - 1));
        assert(all.take(i as int).last() == cases@[i - 1]@);
        if text::same_text(cases[i - 1].name.as_str(), test) {
            return i - 1;
        }
        i -= 1;
    }
    cases.push(JunitCase::new(test.to_owned()));
    assert(cases_view(cases@) =~= all.push(new_case(test@)));
    cases.len() - 1
}

/// Counts an event in the JUnit cases.
pub fn track_junit(cases: &mut Vec<JunitCase>, event: &TestEvent)
    requires
        forall|i: int| 0 <= i < old(cases)@.len() ==> (#[trigger] old(cases)@[i]).skipped < u32::MAX,
    ensures
        cases_view(final(cases)@) == junit_after(cases_view(old(cases)@), *event),
{
    let ghost before = cases_view(cases@);
    match event {
        TestEvent::StepFinished { test, label, status, message, diagnostics, screenshot, .. } => {
            let i: usize = locate_case(cases, test.as_str());
            let ghost all = cases_view(cases@);
            assert(all[i as int] == cases@[i as int]@);
            proof {
                lemma_last_case(before, test@);
                if last_case(before, test@) is Some {
                    assert(before[i as int] == old(cases)@[i as int]@);
                    assert(old(cases)@[i as int].skipped < u32::MAX);
                }
            }
            match status {
                StepStatus::Failed => {
                    let mut text = label.clone();
                    text.append(": ");
                    text.append(message.as_str());
                    append_led(&mut text, "\n", diagnostics);
                    append_led(&mut text, "\nscreenshot: ", screenshot);
                    let ghost said = text@;
                    let ghost old_failures = cases@[i as int].failures@;
                    cases[i].failures.push(text);
                    assert(text::views(cases@[i as int].failures@) =~= text::views(
                        old_failures,
                    ).push(said));
                },
                StepStatus::Skipped => {
                    let n: u32 = cases[i].skipped + 1;
                    cases[i].skipped = n;
                },
                StepStatus::Passed => {},
            }
            assert(cases_view(cases@) =~= junit_after(before, *event));
        },
        TestEvent::TestFinished { test, duration_ms, .. } => {
            let i: usize = locate_case(cases, test.as_str());
            let ghost all = cases_view(cases@);
            assert(all[i as int] == cases@[i as int]@);
            cases[i].duration_ms = *duration_ms;
            assert(cases_view(cases@) =~= junit_after(before, *event));
        },
        _ => {},
    }
}

/// The failures of all cases.
pub open spec fn sum_failures(cases: Seq<CaseView>) -> nat
    decreases cases.len(),
{
    if cases.len() == 0 {
        0
    } else {
        sum_failures(cases.drop_last()) + cases.last().failures.len()
    }
}

/// The skipped steps of all cases.
pub open spec fn sum_skipped(cases: Seq<CaseView>) -> nat
    decreases cases.len(),
{
    if cases.len() == 0 {
        0
    } else {
        sum_skipped(cases.drop_last()) + cases.last().skipped
    }
}

/// The durations of all cases.
pub open spec fn sum_duration(cases: Seq<CaseView>) -> nat
    decreases cases.len(),
{
    if cases.len() == 0 {
        0
    } else {
        sum_duration(cases.drop_last()) + cases.last().duration_ms as nat
    }
}

/// One element for each skipped step.
pub open spec fn skipped_text(n: nat) -> Seq<char>
    decreases n,
{
    if n == 0 {
        Seq::empty()
    } else {
        skipped_text((n - 1) as nat) + "    <skipped/>\n"@
    }
}

/// `s` as the content of CDATA sections.
pub open spec fn cdata(s: Seq<char>) -> Seq<char> {
    text::replaced(s, "]]>"@, "]]]]><![CDATA[>"@)
}

/// One element for each failure.
pub open spec fn failures_text(failures: Seq<Seq<char>>) -> Seq<char>
    decreases failures.len(),
{
    if failures.len() == 0 {
        Seq::empty()
    } else {
        failures_text(failures.drop_last()) + "    <failure message=\""@ + attr_escaped(
            failures.last(),
        ) + "\"><![CDATA["@ + cdata(failures.last()) + "]]></failure>\n"@
    }
}

/// The element of one case.
pub open spec fn case_text(case: CaseView, classname: Seq<char>) -> Seq<char> {
    let head = "  <testcase classname=\""@ + classname + "\" name=\""@ + attr_escaped(case.name)
        + "\" time=\""@ + numbers::fixed(case.duration_ms as nat, 1000, 3);
    if case.failures.len() == 0 && case.skipped == 0 {
        head + "\"/>\n"@
    } else {
        head + "\">\n"@ + skipped_text(case.skipped) + failures_text(case.failures)
            + "  </testcase>\n"@
    }
}

/// The elements of all cases.
pub open spec fn cases_text(cases: Seq<CaseView>, classname: Seq<char>) -> Seq<char>
    decreases cases.len(),
{
    if cases.len() == 0 {
        Seq::empty()
    } else {
        cases_text(cases.drop_last(), classname) + case_text(cases.last(), classname)
    }
}

/// The JUnit XML document of the cases.
pub open spec fn junit_text(cases: Seq<CaseView>, classname: Seq<char>) -> Seq<char> {
    "<?xml version=\"1.0\" encoding=\"UTF-8\"?>\n<testsuites tests=\""@ + text::dec(cases.len())
        + "\" failures=\""@ + text::dec(sum_failures(cases)) + "\" skipped=\""@ + text::dec(
        sum_skipped(cases),
    ) + "\" time=\""@ + numbers::with_decimals(sum_duration(cases), 3) + "\">\n"@ + cases_text(
        cases,
        classname,
    ) + "</testsuites>\n"@
}

/// Appends the element of one case.
fn append_case(out: &mut String, case: &JunitCase, classname: &str)
    ensures
        final(out)@ == old(out)@ + case_text(case@, classname@),
{
    let mut s = "  <testcase classname=\"".to_owned();
    s.append(classname);
    s.append("\" name=\"");
    s.append(esc_attr(case.name.as_str()).as_str());
    s.append("\" time=\"");
    s.append(numbers::seconds(case.duration_ms, 3).as_str());
    if case.failures.len() == 0 && case.skipped == 0 {
        s.append("\"/>\n");
    } else {
        s.append("\">\n");
        let mut skips = String::new();
        let mut n: u32 = 0;
        while n < case.skipped
            invariant
                n <= case.skipped,
                skips@ == skipped_text(n as nat),
            decreases case.skipped - n,
        {
            skips.append("    <skipped/>\n");
            n += 1;
        }
        s.append(skips.as_str());
        let mut body = String::new();
        let mut i: usize = 0;
        let ghost said = text::views(case.failures@);
        assert(said.take(0) =~= Seq::<Seq<char>>::empty());
        while i < case.failures.len()
            invariant
                said == text::views(case.failures@),
                i <= case.failures@.len(),
                body@ == failures_text(said.take(i as int)),
            decreases case.failures@.len() - i,
        {
            let f = case.failures[i].as_str();
            body.append("    <failure message=\"");
            body.append(esc_attr(f).as_str());
            body.append("\"><![CDATA[");
            body.append(text::replace_text(f, "]]>", "]]]]><![CDATA[>").as_str());
            body.append("]]></failure>\n");
            assert(said.take(i + 1).drop_last() =~= said.take(i as int));
            assert(said.take(i + 1).last() == f@);
            i += 1;
        }
        assert(said.take(i as int) =~= said);
        s.append(body.as_str());
        s.append("  </testcase>\n");
    }
    out.append(s.as_str());
}

/// The accumulated cases as a JUnit XML document.
pub fn junit_xml(cases: &Vec<JunitCase>, classname: &str) -> (r: String)
    ensures
        r@ == junit_text(cases_view(cases@), classname@),
{
    let ghost all = cases_view(cases@);
    let mut failures: u128 = 0;
    let mut skipped: u128 = 0;
    let mut time: u128 = 0;
    let mut body = String::new();
    let mut i: usize = 0;
    assert(all.take(0) =~= Seq::<CaseView>::empty());
    while i < cases.len()
        invariant
            all == cases_view(cases@),
            i <= cases@.len(),
            failures == sum_failures(all.take(i as int)),
            skipped == sum_skipped(all.take(i as int)),
            time == sum_duration(all.take(i as int)),
            failures <= i * 0xffff_ffff_ffff_ffff,
            skipped <= i * 0xffff_ffff_ffff_ffff,
            time <= i * 0xffff_ffff_ffff_ffff,
            body@ == cases_text(all.take(i as int), classname@),
        decreases cases@.len() - i,
    {
        let case = &cases[i];
        proof {
            assert(all.take(i + 1).drop_last() =~= all.take(i as int));
            assert(all.take(i + 1).last() == case@);
            assert(i * 0xffff_ffff_ffff_ffff + 0xffff_ffff_ffff_ffff <= u128::MAX)
                by (nonlinear_arith)
                requires
                    i <= 0xffff_ffff_ffff_ffff,
            ;
        }
        failures += case.failures.len() as u128;
        skipped += case.skipped as u128;
        time += case.duration_ms as u128;
        append_case(&mut body, case, classname);
        i += 1;
    }
    assert(all.take(i as int) =~= all);
    let mut s =
        "<?xml version=\"1.0\" encoding=\"UTF-8\"?>\n<testsuites tests=\"".to_owned();
    append_number(&mut s, cases.len() as u128);
    s.append("\" failures=\"");
    append_number(&mut s, failures);
    s.append("\" skipped=\"");
    append_number(&mut s, skipped);
    s.append("\" time=\"");
    s.append(numbers::exact_seconds(time).as_str());
    s.append("\">\n");
    s.append(body.as_str());
    s.append("</testsuites>\n");
    s
}

/// What one event brings to the sinks.
pub struct Emission {
    /// The event, redacted.
    pub event: TestEvent,
    /// The console lines, where the level shows them.
    pub console: Option<String>,
    /// The line of the NDJSON log, where there is one.
    pub log: Option<String>,
    /// The GitHub workflow command on standard output, where there is one.
    pub annotation: Option<String>,
}

/// Fans run events out to every enabled sink.
pub struct Reporter {
    level: Level,
    palette: Palette,
    log: bool,
    github_annotations: bool,
    summary: Option<RunSummary>,
    redactor: Redactor,
    junit: Option<Vec<JunitCase>>,
    trace: Option<TraceLog>,
}

impl Reporter {
    /// The level of the console.
    pub closed spec fn level(&self) -> Level {
        self.level
    }

    /// The palette of the console.
    pub closed spec fn palette(&self) -> Palette {
        self.palette
    }

    /// Whether events are logged.
    pub closed spec fn logs(&self) -> bool {
        self.log
    }

    /// Whether GitHub annotations are emitted.
    pub closed spec fn annotates(&self) -> bool {
        self.github_annotations
    }

    /// What goes to the GitHub step summary.
    pub closed spec fn summary(&self) -> Option<RunSummary> {
        self.summary
    }

    /// The secrets that the reporter replaces.
    pub closed spec fn redactor(&self) -> Redactor {
        self.redactor
    }

    /// The JUnit cases so far, where they are tracked.
    pub closed spec fn junit(&self) -> Option<Seq<CaseView>> {
        match self.junit {
            Some(cases) => Some(cases_view(cases@)),
            None => None,
        }
    }

    /// The trace so far, where it is tracked.
    pub closed spec fn trace(&self) -> Option<trace::TraceView> {
        match self.trace {
            Some(log) => Some(log@),
            None => None,
        }
    }

    /// Everything but what an event can change is as in `other`.
    pub open spec fn same_settings(&self, other: &Reporter) -> bool {
        &&& self.level() == other.level()
        &&& self.palette() == other.palette()
        &&& self.logs() == other.logs()
        &&& self.annotates() == other.annotates()
        &&& self.redactor() == other.redactor()
    }

    /// No counter of the JUnit cases is at its end.
    pub open spec fn has_room(&self) -> bool {
        self.junit() matches Some(cases) ==> forall|i: int|
            0 <= i < cases.len() ==> (#[trigger] cases[i]).skipped < u32::MAX
    }

    /// Creates a reporter with the given console settings and sinks.
    pub fn new(
        level: Level,
        color: bool,
        log: bool,
        junit: bool,
        trace: bool,
        github_annotations: bool,
    ) -> (r: Self)
        ensures
            r.level() == level,
            r.palette() == (Palette { enabled: color }),
            r.logs() == log,
            r.annotates() == github_annotations,
            r.summary() is None,
            r.redactor().wf(),
            r.redactor()@.len() == 0,
            r.has_room(),
            r.junit() == if junit {
                Some(Seq::<CaseView>::empty())
            } else {
                None
            },
            r.trace() is Some == trace,
            r.trace() matches Some(t) ==> t.events.len() == 0 && t.open.len() == 0 && t.base is None,
    {
        let r = Reporter {
            level,
            palette: Palette { enabled: color },
            log,
            github_annotations,
            summary: None,
            redactor: Redactor::new(),
            junit: if junit {
                Some(Vec::new())
            } else {
                None
            },
            trace: if trace {
                Some(TraceLog::new())
            } else {
                None
            },
        };
        assert(junit ==> r.junit()->0 =~= Seq::<CaseView>::empty());
        r
    }

    /// Registers a secret that is replaced in everything reported from now
    /// on, however short it is.
    pub fn add_redaction_secret(&mut self, value: &str)
        requires
            old(self).redactor().wf(),
        ensures
            final(self).redactor().wf(),
            final(self).redactor()@ == redact::with_secret(
                old(self).redactor()@,
                value@,
                0,
            ),
            final(self).level() == old(self).level(),
            final(self).palette() == old(self).palette(),
            final(self).logs() == old(self).logs(),
            final(self).annotates() == old(self).annotates(),
            final(self).summary() == old(self).summary(),
            final(self).junit() == old(self).junit(),
            final(self).trace() == old(self).trace(),
    {
        self.redactor.add_secret(value, 0);
    }

    /// Registers the secrets of a configuration.
    pub fn add_redaction_secrets(&mut self, values: Vec<String>)
        requires
            old(self).redactor().wf(),
        ensures
            final(self).redactor().wf(),
            final(self).redactor()@ == redact::with_secrets(old(self).redactor()@, values@),
            final(self).level() == old(self).level(),
            final(self).palette() == old(self).palette(),
            final(self).logs() == old(self).logs(),
            final(self).annotates() == old(self).annotates(),
            final(self).summary() == old(self).summary(),
            final(self).junit() == old(self).junit(),
            final(self).trace() == old(self).trace(),
    {
        self.redactor.add_secret_values(values);
    }

    /// Redacts one event and renders it for every enabled sink. `now_us` is
    /// the time on a monotonic clock, `now_ms` the epoch time.
    pub fn emit(
        &mut self,
        observed: &ObservedRegistry,
        event: &TestEvent,
        now_us: u64,
        now_ms: u64,
    ) -> (r: Emission)
        requires
            old(self).redactor().wf(),
            observed.wf(),
            old(self).has_room(),
        ensures
            final(self).same_settings(old(self)),
            old(self).redactor().shows_event(observed, *event, r.event),
            match r.console {
                Some(line) => old(self).level().rank() >= event_level(r.event).rank() && line@
                    == event_text(r.event, old(self).palette()),
                None => old(self).level().rank() < event_level(r.event).rank(),
            },
            match r.log {
                Some(line) => old(self).logs() && line@ == events::line_of(r.event, now_ms),
                None => !old(self).logs(),
            },
            match r.annotation {
                Some(line) => old(self).annotates() && annotation_of(r.event) == Some(line@),
                None => !old(self).annotates() || annotation_of(r.event) is None,
            },
            final(self).junit() == match old(self).junit() {
                Some(cases) => Some(junit_after(cases, r.event)),
                None => None,
            },
            final(self).trace() == match old(self).trace() {
                Some(t) => Some(trace::traced(t, r.event, now_us)),
                None => None,
            },
            final(self).summary() == if old(self).annotates() && summary_of(r.event) is Some {
                summary_of(r.event)
            } else {
                old(self).summary()
            },
    {
        let event = self.redactor.redact_event(observed, event);
        let (level, text) = format_event(&event, self.palette);
        let console = if self.level.shows(level) {
            Some(text)
        } else {
            None
        };
        let log = if self.log {
            Some(events::log_line(&event, now_ms))
        } else {
            None
        };
        let mut junit = self.junit.take();
        if let Some(cases) = &mut junit {
            proof {
                assert forall|i: int| 0 <= i < cases@.len() implies (#[trigger] cases@[i]).skipped
                    < u32::MAX by {
                    assert(old(self).junit()->0[i] == cases@[i]@);
                }
            }
            track_junit(cases, &event);
        }
        self.junit = junit;
        let mut trace = self.trace.take();
        if let Some(log) = &mut trace {
            log.track(&event, now_us);
        }
        self.trace = trace;
        let mut annotation = None;
        if self.github_annotations {
            annotation = github_annotation(&event);
            if let Some(summary) = read_summary(&event) {
                self.summary = Some(summary);
            }
        }
        Emission { event, console, log, annotation }
    }

    /// An informational line, if the current level allows it.
    pub fn info(&self, observed: &ObservedRegistry, msg: &str) -> (r: Option<String>)
        requires
            self.redactor().wf(),
            observed.wf(),
        ensures
            match r {
                Some(line) => self.level().rank() >= Level::Info.rank() && line@
                    == self.redactor().shown(observed, msg@),
                None => self.level().rank() < Level::Info.rank(),
            },
    {
        self.line(Level::Info, self.redactor.redact(observed, msg))
    }

    /// A debug line, if `-v` (or higher) was passed.
    pub fn debug(&self, observed: &ObservedRegistry, msg: &str) -> (r: Option<String>)
        requires
            self.redactor().wf(),
            observed.wf(),
        ensures
            match r {
                Some(line) => self.level().rank() >= Level::Debug.rank() && line@
                    == self.redactor().shown(observed, msg@),
                None => self.level().rank() < Level::Debug.rank(),
            },
    {
        self.line(Level::Debug, self.redactor.redact(observed, msg))
    }

    /// A warning line; shown unless `-qq` was passed.
    pub fn warn(&self, observed: &ObservedRegistry, msg: &str) -> (r: Option<String>)
        requires
            self.redactor().wf(),
            observed.wf(),
        ensures
            match r {
                Some(line) => self.level().rank() >= Level::Warn.rank() && line@ == "  ! "@
                    + self.redactor().shown(observed, msg@),
                None => self.level().rank() < Level::Warn.rank(),
            },
    {
        let mut text = "  ! ".to_owned();
        text.append(self.redactor.redact(observed, msg).as_str());
        self.line(Level::Warn, text)
    }

    /// An error line; always shown.
    pub fn error(&self, observed: &ObservedRegistry, msg: &str) -> (r: Option<String>)
        requires
            self.redactor().wf(),
            observed.wf(),
        ensures
            r matches Some(line) && line@ == self.palette().painted(
                "  ✗ "@ + self.redactor().shown(observed, msg@),
                "31"@,
            ),
    {
        let mut text = "  ✗ ".to_owned();
        text.append(self.redactor.redact(observed, msg).as_str());
        self.line(Level::Error, self.palette.red(text.as_str()))
    }

    /// A line, if the current level allows it.
    fn line(&self, level: Level, text: String) -> (r: Option<String>)
        ensures
            r == if self.level().rank() >= level.rank() {
                Some(text)
            } else {
                None
            },
    {
        if self.level.shows(level) {
            Some(text)
        } else {
            None
        }
    }

    /// The JUnit report, where it is tracked.
    pub fn junit_report(&self) -> (r: Option<String>)
        ensures
            match r {
                Some(xml) => self.junit() matches Some(cases) && xml@ == junit_text(
                    cases,
                    "llm-browser-testkit"@,
                ),
                None => self.junit() is None,
            },
    {
        match &self.junit {
            Some(cases) => Some(junit_xml(cases, "llm-browser-testkit")),
            None => None,
        }
    }

    /// The trace document, where it is tracked.
    pub fn trace_document(&self) -> (r: Option<serde_json::Value>)
        ensures
            match r {
                Some(doc) => self.trace() matches Some(t) && json::json_of(doc)
                    == trace::document_of(t),
                None => self.trace() is None,
            },
    {
        match &self.trace {
            Some(log) => Some(log.document()),
            None => None,
        }
    }

    /// What is appended to the GitHub step summary, if the run finished.
    pub fn summary_report(&self) -> (r: Option<String>)
        ensures
            match r {
                Some(t) => self.summary() matches Some(s) && t@ == summary_text(s),
                None => self.summary() is None,
            },
    {
        match &self.summary {
            Some(s) => Some(github_summary(s)),
            None => None,
        }
    }
}

/// The line above and below a part of the cost report.
pub const RULE: &'static str = "═══════════════════════════════════════════════";

/// The line above the summary of the cost report.
pub const THIN_RULE: &'static str = "───────────────────────────────────────────────";

/// A number of calls in words.
pub open spec fn calls_text(n: nat) -> Seq<char> {
    text::grouped(n) + (if n == 1 {
        " call"@
    } else {
        " calls"@
    })
}

/// A number of calls in words.
fn calls_label(n: u64) -> (r: String)
    ensures
        r@ == calls_text(n as nat),
{
    let mut s = text::group_digits(n as u128);
    if n == 1 {
        s.append(" call");
    } else {
        s.append(" calls");
    }
    s
}

/// How wide the column of the endpoints is in the cost report.
pub const ENDPOINT_COLUMN: usize = 17;

/// The line of one endpoint in the cost report; none for an unused endpoint.
pub open spec fn endpoint_line(name: Seq<char>, usage: EndpointUsage) -> Seq<char> {
    if usage.calls == 0 {
        Seq::empty()
    } else {
        "    "@ + text::left_aligned("endpoint."@ + name + ":"@, ENDPOINT_COLUMN as nat) + "   "@
            + calls_text(usage.calls as nat) + ",   "@ + text::grouped(
            (usage.input_tokens + usage.output_tokens) as nat,
        ) + " tokens, $"@ + dollars4(usage.cost) + "\n"@
    }
}

/// The lines of the endpoints of a test.
pub open spec fn endpoint_lines(s: Seq<(String, EndpointUsage)>) -> Seq<char>
    decreases s.len(),
{
    if s.len() == 0 {
        Seq::empty()
    } else {
        endpoint_lines(s.drop_last()) + endpoint_line(s.last().0@, s.last().1)
    }
}

/// The lines of one test in the cost report.
pub open spec fn test_lines(name: Seq<char>, usage: UsageSnapshot) -> Seq<char> {
    "  Test: \""@ + name + "\" — $"@ + dollars4(usage.total_cost) + " | "@ + text::grouped(
        usage.total_tokens as nat,
    ) + " tokens | "@ + calls_text(usage.total_calls as nat) + "\n"@ + endpoint_lines(
        usage.endpoints@,
    )
}

/// The lines of all tests in the cost report.
pub open spec fn tests_lines(s: Seq<(String, UsageSnapshot)>) -> Seq<char>
    decreases s.len(),
{
    if s.len() == 0 {
        Seq::empty()
    } else {
        tests_lines(s.drop_last()) + test_lines(s.last().0@, s.last().1)
    }
}

/// The cost report of a run; empty where no test ran.
pub open spec fn report_of(per_test: Seq<(String, UsageSnapshot)>, global: UsageSnapshot) -> Seq<
    char,
> {
    if per_test.len() == 0 {
        Seq::empty()
    } else {
        "\n"@ + RULE@ + "\n  COST REPORT\n"@ + RULE@ + "\n"@ + tests_lines(per_test) + THIN_RULE@
            + "\n  GLOBAL SUMMARY\n    Total cost:     $"@ + dollars4(global.total_cost)
            + "\n    Total tokens:   "@ + text::grouped(global.total_tokens as nat)
            + "\n    Total calls:    "@ + text::grouped(global.total_calls as nat) + "\n"@ + RULE@
            + "\n"@
    }
}

/// The lines of the endpoints of a test.
fn endpoints_report(list: &Vec<(String, EndpointUsage)>) -> (r: String)
    ensures
        r@ == endpoint_lines(list@),
{
    let mut out = String::new();
    let mut i: usize = 0;
    assert(list@.take(0) =~= Seq::empty());
    while i < list.len()
        invariant
            i <= list@.len(),
            out@ == endpoint_lines(list@.take(i as int)),
        decreases list@.len() - i,
    {
        let usage = list[i].1;
        assert(list@.take(i + 1).drop_last() =~= list@.take(i as int));
        let mut line = String::new();
        if usage.calls != 0 {
            let mut column = "endpoint.".to_owned();
            column.append(list[i].0.as_str());
            column.append(":");
            line = "    ".to_owned();
            line.append(text::align_left(column.as_str(), ENDPOINT_COLUMN).as_str());
            line.append("   ");
            line.append(calls_label(usage.calls).as_str());
            line.append(",   ");
            let tokens: u128 = usage.input_tokens as u128 + usage.output_tokens as u128;
            line.append(text::group_digits(tokens).as_str());
            line.append(" tokens, $");
            append_dollars(&mut line, usage.cost);
            line.append("\n");
        }
        assert(line@ =~= endpoint_line(list@[i as int].0@, usage));
        out.append(line.as_str());
        i += 1;
    }
    assert(list@.take(i as int) =~= list@);
    out
}

/// The cost report after all tests completed; empty where no test ran.
pub fn print_report(per_test: &Vec<(String, UsageSnapshot)>, global: &UsageSnapshot) -> (r: String)
    ensures
        r@ == report_of(per_test@, *global),
{
    if per_test.len() == 0 {
        return String::new();
    }
    let mut tests = String::new();
    let mut i: usize = 0;
    assert(per_test@.take(0) =~= Seq::empty());
    while i < per_test.len()
        invariant
            i <= per_test@.len(),
            tests@ == tests_lines(per_test@.take(i as int)),
        decreases per_test@.len() - i,
    {
        assert(per_test@.take(i + 1).drop_last() =~= per_test@.take(i as int));
        let usage = &per_test[i].1;
        let mut line = "  Test: \"".to_owned();
        line.append(per_test[i].0.as_str());
        line.append("\" — $");
        append_dollars(&mut line, usage.total_cost);
        line.append(" | ");
        line.append(text::group_digits(usage.total_tokens as u128).as_str());
        line.append(" tokens | ");
        line.append(calls_label(usage.total_calls).as_str());
        line.append("\n");
        line.append(endpoints_report(&usage.endpoints).as_str());
        tests.append(line.as_str());
        i += 1;
    }
    assert(per_test@.take(i as int) =~= per_test@);
    let mut s = "\n".to_owned();
    s.append(RULE);
    s.append("\n  COST REPORT\n");
    s.append(RULE);
    s.append("\n");
    s.append(tests.as_str());
    s.append(THIN_RULE);
    s.append("\n  GLOBAL SUMMARY\n    Total cost:     $");
    append_dollars(&mut s, global.total_cost);
    s.append("\n    Total tokens:   ");
    s.append(text::group_digits(global.total_tokens as u128).as_str());
    s.append("\n    Total calls:    ");
    s.append(text::group_digits(global.total_calls as u128).as_str());
    s.append("\n");
    s.append(RULE);
    s.append("\n");
    s
}

/// The line for a softly exceeded budget.
pub fn print_budget_warning(message: &str) -> (r: String)
    ensures
        r@ == "  ! BUDGET WARNING: "@ + message@,
{
    let mut s = "  ! BUDGET WARNING: ".to_owned();
    s.append(message);
    s
}

/// The line for a hard-exceeded budget.
pub fn print_budget_error(message: &str) -> (r: String)
    ensures
        r@ == "  ✗ BUDGET EXCEEDED: "@ + message@,
{
    let mut s = "  ✗ BUDGET EXCEEDED: ".to_owned();
    s.append(message);
    s
}

/// Escaped data holds no line break: an annotation stays on its line.
pub proof fn law_escaped_data_is_one_line(s: Seq<char>)
    ensures
        text::lacks(data_escaped(s), '\n'),
        text::lacks(data_escaped(s), '\r'),
{
    reveal_strlit("\n");
    reveal_strlit("\r");
    reveal_strlit("%25");
    reveal_strlit("%0D");
    reveal_strlit("%0A");
    let a = text::replaced(s, "%"@, "%25"@);
    let b = text::replaced(a, "\r"@, "%0D"@);
    assert("\r"@ =~= seq!['\r']);
    assert("\n"@ =~= seq!['\n']);
    text::lemma_replaced_lacks(a, "\r"@, "%0D"@, '\r');
    text::lemma_replaced_lacks(b, "\n"@, "%0A"@, '\r');
    text::lemma_replaced_lacks(b, "\n"@, "%0A"@, '\n');
}

/// An escaped property holds no line break and none of the characters that
/// end a property.
pub proof fn law_escaped_property_is_closed(s: Seq<char>)
    ensures
        text::lacks(property_escaped(s), '\n'),
        text::lacks(property_escaped(s), '\r'),
        text::lacks(property_escaped(s), ':'),
        text::lacks(property_escaped(s), ','),
{
    law_escaped_data_is_one_line(s);
    reveal_strlit(":");
    reveal_strlit(",");
    reveal_strlit("%3A");
    reveal_strlit("%2C");
    assert(":"@ =~= seq![':']);
    assert(","@ =~= seq![',']);
    let a = data_escaped(s);
    let b = text::replaced(a, ":"@, "%3A"@);
    text::lemma_replaced_lacks(a, ":"@, "%3A"@, '\n');
    text::lemma_replaced_lacks(a, ":"@, "%3A"@, '\r');
    text::lemma_replaced_lacks(a, ":"@, "%3A"@, ':');
    text::lemma_replaced_lacks(b, ","@, "%2C"@, '\n');
    text::lemma_replaced_lacks(b, ","@, "%2C"@, '\r');
    text::lemma_replaced_lacks(b, ","@, "%2C"@, ':');
    text::lemma_replaced_lacks(b, ","@, "%2C"@, ',');
}

/// An escaped attribute value holds no markup and no quote, so that it ends
/// where its quotes say.
pub proof fn law_escaped_attr_is_closed(s: Seq<char>)
    ensures
        text::lacks(attr_escaped(s), '<'),
        text::lacks(attr_escaped(s), '>'),
        text::lacks(attr_escaped(s), '"'),
        text::lacks(attr_escaped(s), '\''),
{
    reveal_strlit("<");
    reveal_strlit(">");
    reveal_strlit("\"");
    reveal_strlit("'");
    reveal_strlit("&lt;");
    reveal_strlit("&gt;");
    reveal_strlit("&quot;");
    reveal_strlit("&apos;");
    assert("<"@ =~= seq!['<']);
    assert(">"@ =~= seq!['>']);
    assert("\""@ =~= seq!['"']);
    assert("'"@ =~= seq!['\'']);
    let a = text::replaced(s, "&"@, "&amp;"@);
    let b = text::replaced(a, "<"@, "&lt;"@);
    let c = text::replaced(b, ">"@, "&gt;"@);
    let d = text::replaced(c, "\""@, "&quot;"@);
    text::lemma_replaced_lacks(a, "<"@, "&lt;"@, '<');
    text::lemma_replaced_lacks(b, ">"@, "&gt;"@, '<');
    text::lemma_replaced_lacks(b, ">"@, "&gt;"@, '>');
    text::lemma_replaced_lacks(c, "\""@, "&quot;"@, '<');
    text::lemma_replaced_lacks(c, "\""@, "&quot;"@, '>');
    text::lemma_replaced_lacks(c, "\""@, "&quot;"@, '"');
    text::lemma_replaced_lacks(d, "'"@, "&apos;"@, '<');
    text::lemma_replaced_lacks(d, "'"@, "&apos;"@, '>');
    text::lemma_replaced_lacks(d, "'"@, "&apos;"@, '"');
    text::lemma_replaced_lacks(d, "'"@, "&apos;"@, '\'');
}

/// The levels are ordered from errors to traces: a level shows itself and all
/// that is more severe.
pub proof fn law_levels_are_ordered(level: Level)
    ensures
        Level::Error.rank() < Level::Warn.rank() < Level::Info.rank() < Level::Debug.rank()
            < Level::Trace.rank(),
        Level::Error.rank() <= level.rank() <= Level::Trace.rank(),
{
}

/// How loud an event is: a failed step is shown even where all else is quiet;
/// a skipped one, a failed call, a warning and the end of the run where
/// warnings are; what starts and ends a test and the steps that pass are
/// information, and the rest is for debugging.
pub proof fn law_events_are_as_loud_as_they_matter(event: TestEvent, level: Level)
    ensures
        event matches TestEvent::StepFinished { status, .. } ==> {
            &&& status == StepStatus::Failed ==> event_level(event).rank() <= level.rank()
            &&& status == StepStatus::Failed ==> event_level(event) == Level::Error
            &&& status == StepStatus::Skipped ==> event_level(event) == Level::Warn
            &&& status == StepStatus::Passed ==> event_level(event) == Level::Info
        },
        event matches TestEvent::LlmCallFinished { ok, .. } ==> event_level(event) == if ok {
            Level::Debug
        } else {
            Level::Warn
        },
        event is Warning || event is RunFinished ==> event_level(event) == Level::Warn,
        event is TestStarted || event is TestFinished ==> event_level(event) == Level::Info,
        event is RunStarted || event is StepStarted || event is LlmCallStarted ==> event_level(event)
            == Level::Debug,
{
}

/// Without colour a text stays as it is; with colour it stands between two
/// marks.
pub proof fn law_paint_only_adds_marks(p: Palette, s: Seq<char>, code: Seq<char>)
    ensures
        !p.enabled ==> p.painted(s, code) == s,
        p.enabled ==> p.painted(s, code).len() > s.len() + code.len(),
        text::has_text(p.painted(s, code), s),
{
    reveal_strlit("\x1b[");
    if p.enabled {
        text::lemma_middle("\x1b["@ + code + "m"@, s, "\x1b[0m"@);
    } else {
        text::lemma_middle(Seq::empty(), s, Seq::empty());
        assert(Seq::<char>::empty() + s + Seq::<char>::empty() =~= s);
    }
}

/// Under a second a time is its milliseconds, else its seconds to one place.
pub proof fn law_durations_are_shown_in_their_unit(ms: u64)
    ensures
        ms < 1000 ==> duration_text(ms) == text::dec(ms as nat) + seq!['m', 's'],
        ms >= 1000 ==> {
            let s = duration_text(ms);
            &&& s.len() > 3
            &&& s.last() == 's'
            &&& s[s.len() - 3] == '.'
        },
        1000 <= ms < 9007199254740992 ==> {
            let s = duration_text(ms);
            let tenths = text::digits_value(s.take(s.len() - 3) + seq![s[s.len() - 2]]);
            tenths * 100 <= ms + 50 && ms <= tenths * 100 + 50
        },
{
    reveal_strlit("ms");
    reveal_strlit("s");
    assert("ms"@ =~= seq!['m', 's']);
    if ms >= 1000 {
        let units = numbers::double_units(ms as nat, 1000, 1);
        let f = numbers::with_decimals(units, 1);
        numbers::law_decimals_are_the_last_digits(units, 1);
        let s = duration_text(ms);
        assert(s.len() == f.len() + 1);
        assert(s[s.len() - 3] == f[f.len() - 2]);
        assert(s.last() == 's');
        assert(s.take(s.len() - 3) + seq![s[s.len() - 2]] =~= f.take(f.len() - 2) + f.skip(
            f.len() - 1,
        ));
        if ms < 9007199254740992 {
            numbers::law_printed_amounts_are_close(ms as nat, 1000, 1);
            assert(numbers::pow10(1) == 10) by {
                reveal_with_fuel(numbers::pow10, 2);
            }
            let ten = numbers::pow10(1);
            assert(ms as nat * ten == 10 * ms) by (nonlinear_arith)
                requires
                    ten == 10,
            ;
            assert(2000 * units <= 20 * ms + 1019 && 20 * ms <= 2000 * units + 1019);
        }
    }
}

/// Escaped data is put together from its pieces: a percent sign and the line
/// breaks are written as numbers, everything else as it is.
#[verifier::rlimit(60)]
pub proof fn law_data_is_escaped_character_by_character(a: Seq<char>, b: Seq<char>, c: char)
    ensures
        data_escaped(a + b) == data_escaped(a) + data_escaped(b),
        data_escaped(Seq::empty()) == Seq::<char>::empty(),
        data_escaped(seq!['%']) == seq!['%', '2', '5'],
        data_escaped(seq!['\r']) == seq!['%', '0', 'D'],
        data_escaped(seq!['\n']) == seq!['%', '0', 'A'],
        c != '%' && c != '\r' && c != '\n' ==> data_escaped(seq![c]) == seq![c],
{
    reveal_strlit("%");
    reveal_strlit("\r");
    reveal_strlit("\n");
    reveal_strlit("%25");
    reveal_strlit("%0D");
    reveal_strlit("%0A");
    assert("%"@ =~= seq!['%'] && "\r"@ =~= seq!['\r'] && "\n"@ =~= seq!['\n']);
    assert("%25"@ =~= seq!['%', '2', '5'] && "%0D"@ =~= seq!['%', '0', 'D'] && "%0A"@ =~= seq![
        '%',
        '0',
        'A',
    ]);
    lemma_escape_step(a, b, '%', "%25"@);
    let a1 = text::replaced(a, seq!['%'], "%25"@);
    let b1 = text::replaced(b, seq!['%'], "%25"@);
    lemma_escape_step(a1, b1, '\r', "%0D"@);
    let a2 = text::replaced(a1, seq!['\r'], "%0D"@);
    let b2 = text::replaced(b1, seq!['\r'], "%0D"@);
    lemma_escape_step(a2, b2, '\n', "%0A"@);
    text::lemma_replaced_char('%', '%', "%25"@);
    text::lemma_replaced_absent("%25"@, seq!['\r'], "%0D"@);
    text::lemma_replaced_absent("%25"@, seq!['\n'], "%0A"@);
    text::lemma_replaced_char('\r', '%', "%25"@);
    text::lemma_replaced_char('\r', '\r', "%0D"@);
    text::lemma_replaced_absent("%0D"@, seq!['\n'], "%0A"@);
    text::lemma_replaced_char('\n', '%', "%25"@);
    text::lemma_replaced_char('\n', '\r', "%0D"@);
    text::lemma_replaced_char('\n', '\n', "%0A"@);
    text::lemma_replaced_char(c, '%', "%25"@);
    text::lemma_replaced_char(c, '\r', "%0D"@);
    text::lemma_replaced_char(c, '\n', "%0A"@);
}

/// One character is replaced piece by piece.
proof fn lemma_escape_step(a: Seq<char>, b: Seq<char>, c: char, to: Seq<char>)
    ensures
        text::replaced(a + b, seq![c], to) == text::replaced(a, seq![c], to) + text::replaced(
            b,
            seq![c],
            to,
        ),
{
    text::law_replacing_a_character_goes_piece_by_piece(a, b, c, to);
}

/// Escaped attributes are put together from their pieces: what means something
/// in XML is written by its name, everything else as it is.
#[verifier::rlimit(60)]
pub proof fn law_attributes_are_escaped_character_by_character(
    a: Seq<char>,
    b: Seq<char>,
    c: char,
)
    ensures
        attr_escaped(a + b) == attr_escaped(a) + attr_escaped(b),
        attr_escaped(seq!['&']) == "&amp;"@,
        attr_escaped(seq!['<']) == "&lt;"@,
        attr_escaped(seq!['>']) == "&gt;"@,
        attr_escaped(seq!['"']) == "&quot;"@,
        attr_escaped(seq!['\'']) == "&apos;"@,
        c != '&' && c != '<' && c != '>' && c != '"' && c != '\'' ==> attr_escaped(seq![c])
            == seq![c],
{
    reveal_strlit("&");
    reveal_strlit("<");
    reveal_strlit(">");
    reveal_strlit("\"");
    reveal_strlit("'");
    reveal_strlit("&amp;");
    reveal_strlit("&lt;");
    reveal_strlit("&gt;");
    reveal_strlit("&quot;");
    reveal_strlit("&apos;");
    assert("&"@ =~= seq!['&'] && "<"@ =~= seq!['<'] && ">"@ =~= seq!['>'] && "\""@ =~= seq!['"']
        && "'"@ =~= seq!['\'']);
    let a1 = text::replaced(a, seq!['&'], "&amp;"@);
    let b1 = text::replaced(b, seq!['&'], "&amp;"@);
    let a2 = text::replaced(a1, seq!['<'], "&lt;"@);
    let b2 = text::replaced(b1, seq!['<'], "&lt;"@);
    let a3 = text::replaced(a2, seq!['>'], "&gt;"@);
    let b3 = text::replaced(b2, seq!['>'], "&gt;"@);
    let a4 = text::replaced(a3, seq!['"'], "&quot;"@);
    let b4 = text::replaced(b3, seq!['"'], "&quot;"@);
    lemma_escape_step(a, b, '&', "&amp;"@);
    lemma_escape_step(a1, b1, '<', "&lt;"@);
    lemma_escape_step(a2, b2, '>', "&gt;"@);
    lemma_escape_step(a3, b3, '"', "&quot;"@);
    lemma_escape_step(a4, b4, '\'', "&apos;"@);
    lemma_attr_char('&');
    lemma_attr_char('<');
    lemma_attr_char('>');
    lemma_attr_char('"');
    lemma_attr_char('\'');
    lemma_attr_char(c);
}

/// What a single character is escaped as.
proof fn lemma_attr_char(c: char)
    ensures
        attr_escaped(seq![c]) == if c == '&' {
            "&amp;"@
        } else if c == '<' {
            "&lt;"@
        } else if c == '>' {
            "&gt;"@
        } else if c == '"' {
            "&quot;"@
        } else if c == '\'' {
            "&apos;"@
        } else {
            seq![c]
        },
{
    reveal_strlit("&");
    reveal_strlit("<");
    reveal_strlit(">");
    reveal_strlit("\"");
    reveal_strlit("'");
    reveal_strlit("&amp;");
    reveal_strlit("&lt;");
    reveal_strlit("&gt;");
    reveal_strlit("&quot;");
    reveal_strlit("&apos;");
    assert("&"@ =~= seq!['&'] && "<"@ =~= seq!['<'] && ">"@ =~= seq!['>'] && "\""@ =~= seq!['"']
        && "'"@ =~= seq!['\'']);
    text::lemma_replaced_char(c, '&', "&amp;"@);
    text::lemma_replaced_char(c, '<', "&lt;"@);
    text::lemma_replaced_char(c, '>', "&gt;"@);
    text::lemma_replaced_char(c, '"', "&quot;"@);
    text::lemma_replaced_char(c, '\'', "&apos;"@);
    text::lemma_replaced_absent("&amp;"@, seq!['<'], "&lt;"@);
    text::lemma_replaced_absent("&amp;"@, seq!['>'], "&gt;"@);
    text::lemma_replaced_absent("&amp;"@, seq!['"'], "&quot;"@);
    text::lemma_replaced_absent("&amp;"@, seq!['\''], "&apos;"@);
    text::lemma_replaced_absent("&lt;"@, seq!['>'], "&gt;"@);
    text::lemma_replaced_absent("&lt;"@, seq!['"'], "&quot;"@);
    text::lemma_replaced_absent("&lt;"@, seq!['\''], "&apos;"@);
    text::lemma_replaced_absent("&gt;"@, seq!['"'], "&quot;"@);
    text::lemma_replaced_absent("&gt;"@, seq!['\''], "&apos;"@);
    text::lemma_replaced_absent("&quot;"@, seq!['\''], "&apos;"@);
}

/// A step is annotated if and only if it failed; the annotation is an error
/// that ends with what the step said.
#[verifier::rlimit(60)]
pub proof fn law_failed_steps_are_annotated(event: TestEvent)
    ensures
        annotation_of(event) is Some <==> (event matches TestEvent::StepFinished { status, .. }
            && status == StepStatus::Failed),
        annotation_of(event) matches Some(line) ==> (event matches TestEvent::StepFinished {
            test,
            label,
            message,
            ..
        } && {
            let said = data_escaped(message@);
            &&& line.len() >= 8 && line.take(8) == "::error "@
            &&& line.len() >= said.len() && line.skip(line.len() - said.len()) == said
            &&& text::has_text(line, property_escaped(test@))
            &&& text::has_text(line, property_escaped(label@))
        }),
{
    reveal_strlit("::error ");
    if let TestEvent::StepFinished { test, label, status, message, screenshot, .. } = event {
        if status == StepStatus::Failed {
            let line = annotation_of(event)->0;
            let file = match screenshot {
                Some(shot) => "file="@ + property_escaped(shot@) + ","@,
                None => Seq::empty(),
            };
            let t = property_escaped(test@);
            let l = property_escaped(label@);
            let m = data_escaped(message@);
            let head = "::error "@ + file + "title="@;
            text::lemma_middle(head, t, ":"@ + l + "::"@ + m);
            assert(head + t + (":"@ + l + "::"@ + m) =~= line);
            text::lemma_middle(head + t + ":"@, l, "::"@ + m);
            assert(head + t + ":"@ + l + ("::"@ + m) =~= line);
            assert(line.take(8) =~= "::error "@);
            assert(line.skip(line.len() - m.len()) =~= m);
        }
    }
}

/// The summary says that all is well if and only if no test failed, and tells
/// how many there were.
#[verifier::rlimit(60)]
pub proof fn law_summaries_tell_the_outcome(s: RunSummary)
    ensures
        s.tests_failed == 0 ==> text::has_text(summary_text(s), "✅ all tests passed"@),
        s.tests_failed != 0 ==> text::has_text(summary_text(s), "❌ some tests failed"@),
        text::has_text(summary_text(s), text::dec(s.tests_passed as nat) + " passed, "@ + text::dec(
            s.tests_failed as nat,
        ) + " failed\n- steps: "@),
        text::has_text(summary_text(s), dollars4(s.total_cost)),
{
    let all = summary_text(s);
    let a = "## llm-browser-testkit run: "@;
    let v = if s.tests_failed == 0 {
        "✅ all tests passed"@
    } else {
        "❌ some tests failed"@
    };
    let b = "\n\n- tests: "@;
    let n = text::dec(s.tests_passed as nat) + " passed, "@ + text::dec(s.tests_failed as nat)
        + " failed\n- steps: "@;
    let c = text::dec(s.steps_passed as nat) + " passed, "@ + text::dec(s.steps_failed as nat)
        + " failed, "@ + text::dec(s.steps_skipped as nat) + " skipped\n- cost: $"@;
    let d = dollars4(s.total_cost);
    let e = " | tokens: "@ + text::dec(s.total_tokens as nat) + " | calls: "@ + text::dec(
        s.total_calls as nat,
    ) + "\n"@;
    text::lemma_middle(a, v, b + n + c + d + e);
    assert(a + v + (b + n + c + d + e) =~= all);
    text::lemma_middle(a + v + b, n, c + d + e);
    assert(a + v + b + n + (c + d + e) =~= all);
    text::lemma_middle(a + v + b + n + c, d, e);
    assert(a + v + b + n + c + d + e =~= all);
}

/// A run is summed up when it ends, with the figures of its end.
pub proof fn law_runs_are_summed_up_at_their_end(event: TestEvent)
    ensures
        summary_of(event) is Some <==> event is RunFinished,
        event matches TestEvent::RunFinished {
            tests_passed,
            tests_failed,
            steps_passed,
            steps_failed,
            steps_skipped,
            total_cost,
            total_tokens,
            total_calls,
        } ==> (summary_of(event) matches Some(s) && s.tests_passed == tests_passed && s.tests_failed
            == tests_failed && s.steps_passed == steps_passed && s.steps_failed == steps_failed
            && s.steps_skipped == steps_skipped && s.total_cost == total_cost && s.total_tokens
            == total_tokens && s.total_calls == total_calls),
{
}

/// What is shown of a step holds its label and what it said; of a test its
/// name; of a warning its message.
#[verifier::rlimit(60)]
pub proof fn law_lines_show_what_happened(event: TestEvent, p: Palette)
    ensures
        event matches TestEvent::StepFinished { label, message, .. } ==> text::has_text(
            event_text(event, p),
            label@ + " — "@ + message@,
        ),
        event matches TestEvent::StepStarted { label, .. } ==> text::has_text(
            event_text(event, p),
            label@,
        ),
        event matches TestEvent::TestStarted { test } ==> (!p.enabled ==> event_text(event, p)
            == "Test: "@ + test@),
        event matches TestEvent::Warning { message } ==> (!p.enabled ==> event_text(event, p)
            == "  ! "@ + message@),
{
    match event {
        TestEvent::StepFinished { label, message, duration_ms, status, diagnostics, screenshot, .. } => {
            lemma_between_four(
                "  "@ + step_icon(p, status) + " "@,
                label@ + " — "@ + message@,
                " ("@ + p.painted(duration_text(duration_ms), "2"@) + ")"@,
                led("\n"@, diagnostics),
                led("\n      screenshot: "@, screenshot),
                event_text(event, p),
            );
        },
        TestEvent::StepStarted { label, .. } => {
            text::lemma_middle("  - "@, label@, Seq::empty());
            assert("  - "@ + label@ + Seq::<char>::empty() =~= event_text(event, p));
        },
        _ => {},
    }
}

/// A text stands in what is put together around it.
proof fn lemma_between_four(
    a: Seq<char>,
    mid: Seq<char>,
    b: Seq<char>,
    c: Seq<char>,
    d: Seq<char>,
    all: Seq<char>,
)
    requires
        all =~= a + mid + b + c + d,
    ensures
        text::has_text(all, mid),
{
    text::lemma_middle(a, mid, b + c + d);
    assert(a + mid + (b + c + d) =~= all);
}

/// The end of a test is shown as passed if and only if a step passed and none
/// failed.
#[verifier::rlimit(60)]
pub proof fn law_ended_tests_show_their_outcome(event: TestEvent, p: Palette)
    requires
        !p.enabled,
    ensures
        event matches TestEvent::TestFinished { test, passed, failed, .. } ==> {
            let lead = "Test: "@ + test@ + " — "@;
            let line = event_text(event, p);
            &&& line.len() >= lead.len() + 6
            &&& line.take(lead.len() as int) == lead
            &&& failed == 0 && passed > 0 ==> line.subrange(
                lead.len() as int,
                lead.len() as int + 6,
            ) == "passed"@
            &&& failed > 0 || passed == 0 ==> line.subrange(
                lead.len() as int,
                lead.len() as int + 6,
            ) == "failed"@
        },
{
    reveal_strlit("passed");
    reveal_strlit("failed");
    if let TestEvent::TestFinished {
        test,
        passed,
        failed,
        skipped,
        duration_ms,
        cost,
        tokens,
        calls,
    } = event {
        let line = event_text(event, p);
        let lead = "Test: "@ + test@ + " — "@;
        let word = verdict_text(p, failed == 0 && passed > 0);
        let n = lead.len() as int;
        assert(line.take(n) =~= lead);
        assert(line.subrange(n, n + 6) =~= word);
    }
}

/// The end of a run is shown as passed if and only if no test failed.
#[verifier::rlimit(60)]
pub proof fn law_ended_runs_show_their_outcome(event: TestEvent, p: Palette)
    requires
        !p.enabled,
    ensures
        event matches TestEvent::RunFinished { tests_failed, .. } ==> {
            let line = event_text(event, p);
            &&& line.len() >= 10
            &&& tests_failed == 0 ==> line.subrange(4, 10) == "passed"@
            &&& tests_failed > 0 ==> line.subrange(4, 10) == "failed"@
        },
{
    reveal_strlit("run ");
    reveal_strlit("passed");
    reveal_strlit("failed");
    if let TestEvent::RunFinished { tests_failed, .. } = event {
        let line = event_text(event, p);
        let word = verdict_text(p, tests_failed == 0);
        assert(line.subrange(4, 10) =~= word);
    }
}

/// Where a case stands.
proof fn lemma_case_at(cases: Seq<CaseView>, name: Seq<char>)
    ensures
        0 <= case_at(cases, name) < with_case(cases, name).len(),
        with_case(cases, name)[case_at(cases, name)].name == name,
        sum_failures(with_case(cases, name)) == sum_failures(cases),
        sum_skipped(with_case(cases, name)) == sum_skipped(cases),
{
    lemma_last_case(cases, name);
    if last_case(cases, name) is None {
        assert(cases.push(new_case(name)).drop_last() =~= cases);
    }
}

/// Changing one case changes the sums by the difference.
proof fn lemma_case_update(cases: Seq<CaseView>, i: int, c: CaseView)
    requires
        0 <= i < cases.len(),
    ensures
        sum_failures(cases.update(i, c)) == sum_failures(cases) - cases[i].failures.len()
            + c.failures.len(),
        sum_skipped(cases.update(i, c)) == sum_skipped(cases) - cases[i].skipped + c.skipped,
    decreases cases.len(),
{
    let t = cases.update(i, c);
    if i == cases.len() - 1 {
        assert(t.drop_last() =~= cases.drop_last());
    } else {
        lemma_case_update(cases.drop_last(), i, c);
        assert(t.drop_last() =~= cases.drop_last().update(i, c));
    }
}

/// A failed step adds one failure to the case of its test, a skipped one adds one
/// skip, and a step that passed neither; the cases of other tests stay as they
/// are.
pub proof fn law_cases_count_their_steps(cases: Seq<CaseView>, event: TestEvent)
    ensures
        event matches TestEvent::StepFinished { test, label, status, message, .. } ==> {
            let after = junit_after(cases, event);
            let i = case_at(cases, test@);
            &&& 0 <= i < after.len()
            &&& after[i].name == test@
            &&& cases.len() <= after.len() <= cases.len() + 1
            &&& forall|k: int| 0 <= k < cases.len() && k != i ==> #[trigger] after[k] == cases[k]
            &&& status == StepStatus::Failed ==> sum_failures(after) == sum_failures(cases) + 1
                && sum_skipped(after) == sum_skipped(cases) && after[i].failures.len() > 0
                && text::has_text(after[i].failures.last(), label@ + ": "@ + message@)
            &&& status == StepStatus::Skipped ==> sum_skipped(after) == sum_skipped(cases) + 1
                && sum_failures(after) == sum_failures(cases)
            &&& status == StepStatus::Passed ==> sum_failures(after) == sum_failures(cases)
                && sum_skipped(after) == sum_skipped(cases)
        },
        event matches TestEvent::TestFinished { test, duration_ms, .. } ==> {
            let after = junit_after(cases, event);
            let i = case_at(cases, test@);
            &&& 0 <= i < after.len()
            &&& after[i].name == test@
            &&& after[i].duration_ms == duration_ms
            &&& sum_failures(after) == sum_failures(cases)
            &&& sum_skipped(after) == sum_skipped(cases)
        },
        !(event is StepFinished) && !(event is TestFinished) ==> junit_after(cases, event) == cases,
{
    let after = junit_after(cases, event);
    match event {
        TestEvent::StepFinished { test, label, status, message, diagnostics, screenshot, .. } => {
            lemma_case_at(cases, test@);
            lemma_last_case(cases, test@);
            let all = with_case(cases, test@);
            let i = case_at(cases, test@);
            lemma_case_update(all, i, after[i]);
            let said = label@ + ": "@ + message@;
            let rest = led("\n"@, diagnostics) + led("\nscreenshot: "@, screenshot);
            text::lemma_middle(Seq::empty(), said, rest);
            assert(Seq::<char>::empty() + said + rest =~= failure_text(
                label@,
                message@,
                diagnostics,
                screenshot,
            ));
        },
        TestEvent::TestFinished { test, .. } => {
            lemma_case_at(cases, test@);
            let all = with_case(cases, test@);
            let i = case_at(cases, test@);
            lemma_case_update(all, i, after[i]);
        },
        _ => {},
    }
}

/// The report of a case is closed at once where nothing went wrong; else it
/// holds an element for each failure, with what failed, and for each skip.
#[verifier::rlimit(60)]
pub proof fn law_case_reports_hold_their_failures(
    case: CaseView,
    classname: Seq<char>,
    i: int,
)
    ensures
        text::has_text(case_text(case, classname), attr_escaped(case.name)),
        0 <= i < case.failures.len() ==> text::has_text(
            case_text(case, classname),
            attr_escaped(case.failures[i]),
        ),
        case.failures.len() == 0 && case.skipped == 0 ==> {
            let t = case_text(case, classname);
            t.len() >= 4 && t.skip(t.len() - 4) == "\"/>\n"@
        },
{
    let head = "  <testcase classname=\""@ + classname + "\" name=\""@;
    let name = attr_escaped(case.name);
    let time = "\" time=\""@ + numbers::fixed(case.duration_ms as nat, 1000, 3);
    let all = case_text(case, classname);
    let body = if case.failures.len() == 0 && case.skipped == 0 {
        "\"/>\n"@
    } else {
        "\">\n"@ + skipped_text(case.skipped) + failures_text(case.failures) + "  </testcase>\n"@
    };
    text::lemma_middle(head, name, time + body);
    assert(head + name + (time + body) =~= all);
    reveal_strlit("\"/>\n");
    if case.failures.len() == 0 && case.skipped == 0 {
        assert(all.skip(all.len() - 4) =~= "\"/>\n"@);
    }
    if 0 <= i < case.failures.len() {
        lemma_failure_listed(case.failures, i);
        let list = failures_text(case.failures);
        let one = attr_escaped(case.failures[i]);
        let at = choose|at: int| text::occurs_at(list, one, at);
        let before = head + name + time + "\">\n"@ + skipped_text(case.skipped);
        assert(all =~= before + list + "  </testcase>\n"@);
        let n = one.len() as int;
        assert(all.subrange(before.len() + at, before.len() + at + n) =~= list.subrange(
            at,
            at + n,
        ));
        assert(text::occurs_at(all, one, before.len() + at));
    }
}

/// Every failure has its element.
proof fn lemma_failure_listed(failures: Seq<Seq<char>>, i: int)
    requires
        0 <= i < failures.len(),
    ensures
        text::has_text(failures_text(failures), attr_escaped(failures[i])),
    decreases failures.len(),
{
    let all = failures_text(failures);
    let rest = failures_text(failures.drop_last());
    if i == failures.len() - 1 {
        let last = attr_escaped(failures.last());
        let head = rest + "    <failure message=\""@;
        let tail = "\"><![CDATA["@ + cdata(failures.last()) + "]]></failure>\n"@;
        text::lemma_middle(head, last, tail);
        assert(head + last + tail =~= all);
    } else {
        lemma_failure_listed(failures.drop_last(), i);
        let one = attr_escaped(failures[i]);
        let at = choose|at: int| text::occurs_at(rest, one, at);
        let n = one.len() as int;
        assert(all.subrange(at, at + n) =~= rest.subrange(at, at + n));
        assert(text::occurs_at(all, one, at));
    }
}

/// The report counts the cases, their failures and their skips.
#[verifier::rlimit(60)]
pub proof fn law_reports_count_their_cases(cases: Seq<CaseView>, classname: Seq<char>)
    ensures
        text::has_text(
            junit_text(cases, classname),
            "<testsuites tests=\""@ + text::dec(cases.len()) + "\" failures=\""@ + text::dec(
                sum_failures(cases),
            ) + "\" skipped=\""@ + text::dec(sum_skipped(cases)) + "\""@,
        ),
        text::has_text(junit_text(cases, classname), cases_text(cases, classname)),
{
    reveal_strlit("<?xml version=\"1.0\" encoding=\"UTF-8\"?>\n<testsuites tests=\"");
    reveal_strlit("<?xml version=\"1.0\" encoding=\"UTF-8\"?>\n");
    reveal_strlit("<testsuites tests=\"");
    reveal_strlit("\" time=\"");
    reveal_strlit("\"");
    reveal_strlit(" time=\"");
    let all = junit_text(cases, classname);
    let lead = "<?xml version=\"1.0\" encoding=\"UTF-8\"?>\n"@;
    assert("<?xml version=\"1.0\" encoding=\"UTF-8\"?>\n<testsuites tests=\""@ =~= lead
        + "<testsuites tests=\""@);
    assert("\" time=\""@ =~= "\""@ + " time=\""@);
    let counts = "<testsuites tests=\""@ + text::dec(cases.len()) + "\" failures=\""@ + text::dec(
        sum_failures(cases),
    ) + "\" skipped=\""@ + text::dec(sum_skipped(cases)) + "\""@;
    let time = " time=\""@ + numbers::with_decimals(sum_duration(cases), 3) + "\">\n"@;
    let list = cases_text(cases, classname);
    text::lemma_middle(lead, counts, time + list + "</testsuites>\n"@);
    assert(lead + counts + (time + list + "</testsuites>\n"@) =~= all);
    text::lemma_middle(lead + counts + time, list, "</testsuites>\n"@);
    assert(lead + counts + time + list + "</testsuites>\n"@ =~= all);
}

/// The sums of a report count every case.
pub proof fn law_sums_count_every_case(cases: Seq<CaseView>, case: CaseView)
    ensures
        sum_failures(Seq::empty()) == 0,
        sum_skipped(Seq::empty()) == 0,
        sum_duration(Seq::empty()) == 0,
        sum_failures(cases.push(case)) == sum_failures(cases) + case.failures.len(),
        sum_skipped(cases.push(case)) == sum_skipped(cases) + case.skipped,
        sum_duration(cases.push(case)) == sum_duration(cases) + case.duration_ms,
{
    assert(cases.push(case).drop_last() =~= cases);
}

/// Text within a failure cannot end its section: its end mark is taken apart.
pub proof fn law_failures_stay_in_their_section(before: Seq<char>, after: Seq<char>)
    requires
        text::lacks(before, ']'),
        text::lacks(after, ']'),
    ensures
        cdata(before) == before,
        cdata(before + "]]>"@ + after) == before + "]]]]><![CDATA[>"@ + after,
{
    reveal_strlit("]]>");
    text::lemma_replaced_absent(before, "]]>"@, "]]]]><![CDATA[>"@);
    text::law_replacing_one_occurrence(before, "]]>"@, "]]]]><![CDATA[>"@, after);
}

/// An endpoint has a line in the cost report if and only if it was called; the
/// line tells its name, its calls and what they cost.
pub proof fn law_cost_lines_are_for_endpoints_that_were_called(
    name: Seq<char>,
    usage: EndpointUsage,
)
    ensures
        usage.calls == 0 <==> endpoint_line(name, usage).len() == 0,
        usage.calls > 0 ==> {
            let line = endpoint_line(name, usage);
            &&& text::has_text(line, name)
            &&& text::has_text(line, text::grouped(usage.calls as nat))
            &&& text::has_text(
                line,
                text::grouped((usage.input_tokens + usage.output_tokens) as nat) + " tokens, $"@
                    + dollars4(usage.cost),
            )
            &&& line.last() == '\n'
        },
{
    reveal_strlit("\n");
    if usage.calls > 0 {
        let label = "endpoint."@ + name + ":"@;
        let column = text::left_aligned(label, ENDPOINT_COLUMN as nat);
        let pad = column.skip(label.len() as int);
        assert(column =~= label + pad);
        lemma_cost_line(
            name,
            pad,
            text::grouped(usage.calls as nat),
            if usage.calls == 1 {
                " call"@
            } else {
                " calls"@
            },
            text::grouped((usage.input_tokens + usage.output_tokens) as nat),
            dollars4(usage.cost),
            endpoint_line(name, usage),
        );
    }
}

/// The parts of a cost line.
proof fn lemma_cost_line(
    name: Seq<char>,
    pad: Seq<char>,
    n: Seq<char>,
    unit: Seq<char>,
    tokens: Seq<char>,
    cost: Seq<char>,
    line: Seq<char>,
)
    requires
        line == "    "@ + ("endpoint."@ + name + ":"@ + pad) + "   "@ + (n + unit) + ",   "@ + tokens
            + " tokens, $"@ + cost + "\n"@,
    ensures
        text::has_text(line, name),
        text::has_text(line, n),
        text::has_text(line, tokens + " tokens, $"@ + cost),
        line.len() > 0,
        line.last() == '\n',
{
    reveal_strlit("\n");
    let a = "    "@;
    let e = "endpoint."@;
    let amount = tokens + " tokens, $"@ + cost;
    let tail = ",   "@ + tokens + " tokens, $"@ + cost + "\n"@;
    assert(line =~= (a + e) + name + (":"@ + pad + "   "@ + n + unit + tail)) by {
        assert(line.len() == ((a + e) + name + (":"@ + pad + "   "@ + n + unit + tail)).len());
    }
    text::lemma_middle(a + e, name, ":"@ + pad + "   "@ + n + unit + tail);
    let head = a + e + name + ":"@ + pad + "   "@;
    assert(line =~= head + n + (unit + tail));
    text::lemma_middle(head, n, unit + tail);
    let before = head + n + unit + ",   "@;
    assert(line =~= before + amount + "\n"@);
    text::lemma_middle(before, amount, "\n"@);
}

/// The cost report is empty without tests; else it tells the total cost and,
/// for each test, its name and what it cost.
#[verifier::rlimit(60)]
pub proof fn law_cost_reports_tell_every_test(
    per_test: Seq<(String, UsageSnapshot)>,
    global: UsageSnapshot,
    i: int,
)
    ensures
        per_test.len() == 0 <==> report_of(per_test, global).len() == 0,
        per_test.len() > 0 ==> text::has_text(
            report_of(per_test, global),
            "Total cost:     $"@ + dollars4(global.total_cost),
        ),
        0 <= i < per_test.len() ==> text::has_text(
            report_of(per_test, global),
            "\""@ + per_test[i].0@ + "\" — $"@ + dollars4(per_test[i].1.total_cost),
        ),
{
    reveal_strlit("\n");
    if per_test.len() > 0 {
        let all = report_of(per_test, global);
        let head = "\n"@ + RULE@ + "\n  COST REPORT\n"@ + RULE@ + "\n"@;
        let list = tests_lines(per_test);
        reveal_strlit("\n  GLOBAL SUMMARY\n    Total cost:     $");
        reveal_strlit("\n  GLOBAL SUMMARY\n    ");
        reveal_strlit("Total cost:     $");
        assert("\n  GLOBAL SUMMARY\n    Total cost:     $"@ =~= "\n  GLOBAL SUMMARY\n    "@
            + "Total cost:     $"@);
        let total = "Total cost:     $"@ + dollars4(global.total_cost);
        let rest = "\n    Total tokens:   "@ + text::grouped(global.total_tokens as nat)
            + "\n    Total calls:    "@ + text::grouped(global.total_calls as nat) + "\n"@ + RULE@
            + "\n"@;
        let mid = THIN_RULE@ + "\n  GLOBAL SUMMARY\n    "@;
        text::lemma_middle(head + list + mid, total, rest);
        assert(head + list + mid + total + rest =~= all);
        if 0 <= i < per_test.len() {
            lemma_test_listed(per_test, i);
            let one = "\""@ + per_test[i].0@ + "\" — $"@ + dollars4(per_test[i].1.total_cost);
            let at = choose|at: int| text::occurs_at(list, one, at);
            let n = one.len() as int;
            assert(all.subrange(head.len() + at, head.len() + at + n) =~= list.subrange(at, at + n));
            assert(text::occurs_at(all, one, head.len() + at));
        }
    }
}

/// Every test has its lines.
proof fn lemma_test_listed(s: Seq<(String, UsageSnapshot)>, i: int)
    requires
        0 <= i < s.len(),
    ensures
        text::has_text(
            tests_lines(s),
            "\""@ + s[i].0@ + "\" — $"@ + dollars4(s[i].1.total_cost),
        ),
    decreases s.len(),
{
    let all = tests_lines(s);
    let rest = tests_lines(s.drop_last());
    let one = "\""@ + s[i].0@ + "\" — $"@ + dollars4(s[i].1.total_cost);
    if i == s.len() - 1 {
        let u = s.last().1;
        reveal_strlit("  Test: \"");
        reveal_strlit("  Test: ");
        reveal_strlit("\"");
        assert("  Test: \""@ =~= "  Test: "@ + "\""@);
        let tail = " | "@ + text::grouped(u.total_tokens as nat) + " tokens | "@ + calls_text(
            u.total_calls as nat,
        ) + "\n"@ + endpoint_lines(u.endpoints@);
        text::lemma_middle(rest + "  Test: "@, one, tail);
        assert(rest + "  Test: "@ + one + tail =~= all);
    } else {
        lemma_test_listed(s.drop_last(), i);
        let at = choose|at: int| text::occurs_at(rest, one, at);
        let n = one.len() as int;
        assert(all.subrange(at, at + n) =~= rest.subrange(at, at + n));
        assert(text::occurs_at(all, one, at));
    }
}

} // verus!
