//! The Perfetto trace sink.
//!
//! Tests, steps and LLM calls open a span when they start and close it when
//! they finish. A closed span is a complete event of the Chrome Trace Event
//! Format. Times are microseconds of one monotonic clock.
use vstd::prelude::*;
use vstd::string::StringExecFns;
use crate::events;
use crate::events::TestEvent;
use crate::json;
use crate::json::Json;

verus! {

/// What a span covers.
#[derive(Debug, Clone, Copy, PartialEq, Eq, Structural)]
pub enum SpanKind {
    /// A test.
    Test,
    /// A step of a test.
    Step,
    /// An LLM call.
    Llm,
}

impl SpanKind {
    /// The category of the span's trace event.
    pub open spec fn category(self) -> Seq<char> {
        match self {
            SpanKind::Test => "test"@,
            SpanKind::Step => "step"@,
            SpanKind::Llm => "llm"@,
        }
    }

    /// The category of the span's trace event.
    fn as_str(self) -> (r: &'static str)
        ensures
            r@ == self.category(),
    {
        match self {
            SpanKind::Test => "test",
            SpanKind::Step => "step",
            SpanKind::Llm => "llm",
        }
    }
}

/// An open (unfinished) span in the trace.
pub struct OpenSpan {
    kind: SpanKind,
    name: String,
    start: u64,
}

/// What an [`OpenSpan`] holds.
pub struct SpanView {
    /// What the span covers.
    pub kind: SpanKind,
    /// Its name.
    pub name: Seq<char>,
    /// When it was opened.
    pub start: u64,
}

impl View for OpenSpan {
    type V = SpanView;

    closed spec fn view(&self) -> SpanView {
        SpanView { kind: self.kind, name: self.name@, start: self.start }
    }
}

/// The trace of a run so far.
pub struct TraceLog {
    events: Vec<serde_json::Value>,
    open: Vec<OpenSpan>,
    base: Option<u64>,
}

/// What a [`TraceLog`] holds.
pub struct TraceView {
    /// The complete events, in the order in which the spans were closed.
    pub events: Seq<Json>,
    /// The open spans, in the order in which they were opened.
    pub open: Seq<SpanView>,
    /// When the first event of the run was seen.
    pub base: Option<u64>,
}

/// What a list of open spans holds.
pub open spec fn spans_view(open: Seq<OpenSpan>) -> Seq<SpanView> {
    open.map_values(|s: OpenSpan| s@)
}

impl View for TraceLog {
    type V = TraceView;

    closed spec fn view(&self) -> TraceView {
        TraceView {
            events: json::jsons_of(self.events@),
            open: spans_view(self.open@),
            base: self.base,
        }
    }
}

/// The position of the most recent open span of that kind.
pub open spec fn last_span(open: Seq<SpanView>, kind: SpanKind) -> Option<int>
    decreases open.len(),
{
    if open.len() == 0 {
        None
    } else if open.last().kind == kind {
        Some(open.len() - 1)
    } else {
        last_span(open.drop_last(), kind)
    }
}

/// How much later `b` is than `a`; 0 where it is not.
pub open spec fn elapsed(a: u64, b: u64) -> u64 {
    if a <= b {
        (b - a) as u64
    } else {
        0
    }
}

/// The complete event of a span that is closed at `now`.
pub open spec fn span_event(span: SpanView, base: u64, now: u64, args: Json) -> Json {
    json::object(
        seq![
            ("name"@, Json::Str(span.name)),
            ("ph"@, Json::Str("X"@)),
            ("ts"@, Json::UInt(elapsed(base, span.start))),
            ("dur"@, Json::UInt(elapsed(span.start, now))),
            ("pid"@, Json::UInt(1)),
            ("tid"@, Json::UInt(1)),
            ("cat"@, Json::Str(span.kind.category())),
            ("args"@, args),
        ],
    )
}

/// The trace after a span of that kind was opened.
pub open spec fn opened(t: TraceView, kind: SpanKind, name: Seq<char>, now: u64) -> TraceView {
    TraceView { open: t.open.push(SpanView { kind, name, start: now }), ..t }
}

/// The trace after the most recent span of that kind was closed; unchanged
/// where none is open.
pub open spec fn closed_span(t: TraceView, kind: SpanKind, args: Json, now: u64) -> TraceView {
    match last_span(t.open, kind) {
        Some(i) => TraceView {
            open: t.open.remove(i),
            events: t.events.push(span_event(t.open[i], t.base->0, now, args)),
            ..t
        },
        None => t,
    }
}

/// What an event that closes a span says of it.
pub open spec fn span_args(event: TestEvent) -> Json {
    match event {
        TestEvent::TestFinished { test, passed, failed, skipped, .. } => json::object(
            seq![
                ("test"@, Json::Str(test@)),
                ("passed"@, Json::UInt(passed as u64)),
                ("failed"@, Json::UInt(failed as u64)),
                ("skipped"@, Json::UInt(skipped as u64)),
            ],
        ),
        TestEvent::StepFinished { status, .. } => json::object(
            seq![("status"@, Json::Str(status.name()))],
        ),
        TestEvent::LlmCallFinished { ok, input_tokens, output_tokens, cost, error, .. } => {
            json::object(
                seq![
                    ("ok"@, Json::Bool(ok)),
                    ("in_tokens"@, Json::UInt(input_tokens)),
                    ("out_tokens"@, Json::UInt(output_tokens)),
                    ("cost"@, events::cost_json(cost)),
                    ("error"@, json::option_json(error)),
                ],
            )
        },
        _ => Json::Null,
    }
}

/// The trace after an event that was seen at `now`.
pub open spec fn traced(before: TraceView, event: TestEvent, now: u64) -> TraceView {
    let t = TraceView {
        base: match before.base {
            Some(b) => Some(b),
            None => Some(now),
        },
        ..before
    };
    match event {
        TestEvent::TestStarted { test } => opened(t, SpanKind::Test, test@, now),
        TestEvent::StepStarted { label, .. } => opened(t, SpanKind::Step, label@, now),
        TestEvent::LlmCallStarted { endpoint, model, purpose, .. } => opened(
            t,
            SpanKind::Llm,
            "llm "@ + purpose@ + ": "@ + endpoint@ + " ("@ + model@ + ")"@,
            now,
        ),
        TestEvent::TestFinished { .. } => closed_span(t, SpanKind::Test, span_args(event), now),
        TestEvent::StepFinished { .. } => closed_span(t, SpanKind::Step, span_args(event), now),
        TestEvent::LlmCallFinished { .. } => closed_span(t, SpanKind::Llm, span_args(event), now),
        _ => t,
    }
}

/// The trace document of the closed spans.
pub open spec fn document_of(t: TraceView) -> Json {
    json::object(
        seq![
            ("traceEvents"@, Json::Arr(t.events)),
            ("displayTimeUnit"@, Json::Str("ms"@)),
        ],
    )
}

/// `last_span` gives a position of that kind.
proof fn lemma_last_span(open: Seq<SpanView>, kind: SpanKind)
    ensures
        match last_span(open, kind) {
            Some(i) => 0 <= i < open.len() && open[i].kind == kind,
            None => true,
        },
    decreases open.len(),
{
    if open.len() > 0 && open.last().kind != kind {
        lemma_last_span(open.drop_last(), kind);
    }
}

/// How much later `b` is than `a`; 0 where it is not.
fn since(a: u64, b: u64) -> (r: u64)
    ensures
        r == elapsed(a, b),
{
    if a <= b {
        b - a
    } else {
        0
    }
}

/// What an event that closes a span says of it.
fn args_value(event: &TestEvent) -> (r: serde_json::Value)
    ensures
        json::json_of(r) == span_args(*event),
{
    match event {
        TestEvent::TestFinished { test, passed, failed, skipped, .. } => {
            let entries = vec![
                json::entry("test", json::json_string(test.as_str())),
                json::entry("passed", json::json_uint(*passed as u64)),
                json::entry("failed", json::json_uint(*failed as u64)),
                json::entry("skipped", json::json_uint(*skipped as u64)),
            ];
            assert(json::entries_of(entries@) =~= seq![
                ("test"@, Json::Str(test@)),
                ("passed"@, Json::UInt(*passed as u64)),
                ("failed"@, Json::UInt(*failed as u64)),
                ("skipped"@, Json::UInt(*skipped as u64)),
            ]);
            json::json_object(entries)
        },
        TestEvent::StepFinished { status, .. } => {
            let entries = vec![json::entry("status", json::json_string(status.as_str()))];
            assert(json::entries_of(entries@) =~= seq![("status"@, Json::Str(status.name()))]);
            json::json_object(entries)
        },
        TestEvent::LlmCallFinished { ok, input_tokens, output_tokens, cost, error, .. } => {
            let entries = vec![
                json::entry("ok", json::json_bool(*ok)),
                json::entry("in_tokens", json::json_uint(*input_tokens)),
                json::entry("out_tokens", json::json_uint(*output_tokens)),
                json::entry("cost", events::cost_value(*cost)),
                json::entry("error", json::json_option(error)),
            ];
            assert(json::entries_of(entries@) =~= seq![
                ("ok"@, Json::Bool(*ok)),
                ("in_tokens"@, Json::UInt(*input_tokens)),
                ("out_tokens"@, Json::UInt(*output_tokens)),
                ("cost"@, events::cost_json(*cost)),
                ("error"@, json::option_json(*error)),
            ]);
            json::json_object(entries)
        },
        _ => json::json_null(),
    }
}

impl TraceLog {
    /// The trace of a run that has not begun.
    pub fn new() -> (r: Self)
        ensures
            r@.events.len() == 0,
            r@.open.len() == 0,
            r@.base is None,
    {
        TraceLog { events: Vec::new(), open: Vec::new(), base: None }
    }

    /// Opens a span.
    fn open_span(&mut self, kind: SpanKind, name: String, now: u64)
        ensures
            final(self)@ == opened(old(self)@, kind, name@, now),
    {
        let ghost before = self@.open;
        self.open.push(OpenSpan { kind, name, start: now });
        assert(self@.open =~= before.push(SpanView { kind, name: name@, start: now }));
    }

    /// Closes the most recent open span of the given kind into a complete
    /// event.
    fn close_span(&mut self, kind: SpanKind, args: serde_json::Value, now: u64)
        requires
            old(self)@.base is Some,
        ensures
            final(self)@ == closed_span(old(self)@, kind, json::json_of(args), now),
    {
        let ghost spans = self@.open;
        let ghost before = self@.events;
        proof {
            lemma_last_span(spans, kind);
        }
        let mut i: usize = self.open.len();
        assert(spans.take(i as int) =~= spans);
        while i > 0
            invariant
                spans == spans_view(self.open@),
                i <= self.open@.len(),
                last_span(spans, kind) == last_span(spans.take(i as int), kind),
                *self == *old(self),
                self.base is Some,
                before == json::jsons_of(self.events@),
            decreases i,
        {
            assert(spans.take(i as int).drop_last() =~= spans.take(i - 1));
            assert(spans.take(i as int).last() == self.open@[i - 1]@);
            if self.open[i - 1].kind == kind {
                let base: u64 = match self.base {
                    Some(b) => b,
                    None => 0,
                };
                let span = self.open.remove(i - 1);
                assert(self@.open =~= spans.remove(i - 1));
                let ghost name = span.name@;
                let entries = vec![
                    json::entry("name", json::json_string(span.name.as_str())),
                    json::entry("ph", json::json_string("X")),
                    json::entry("ts", json::json_uint(since(base, span.start))),
                    json::entry("dur", json::json_uint(since(span.start, now))),
                    json::entry("pid", json::json_uint(1)),
                    json::entry("tid", json::json_uint(1)),
                    json::entry("cat", json::json_string(kind.as_str())),
                    json::entry("args", args),
                ];
                let ghost wanted = seq![
                    ("name"@, Json::Str(name)),
                    ("ph"@, Json::Str("X"@)),
                    ("ts"@, Json::UInt(elapsed(base, span.start))),
                    ("dur"@, Json::UInt(elapsed(span.start, now))),
                    ("pid"@, Json::UInt(1)),
                    ("tid"@, Json::UInt(1)),
                    ("cat"@, Json::Str(kind.category())),
                    ("args"@, json::json_of(args)),
                ];
                assert(json::entries_of(entries@) =~= wanted);
                self.events.push(json::json_object(entries));
                assert(self@.events =~= before.push(
                    span_event(span@, base, now, json::json_of(args)),
                ));
                return;
            }
            i -= 1;
        }
    }

    /// Counts an event that was seen at `now`.
    pub fn track(&mut self, event: &TestEvent, now: u64)
        ensures
            final(self)@ == traced(old(self)@, *event, now),
    {
        if self.base.is_none() {
            self.base = Some(now);
        }
        match event {
            TestEvent::TestStarted { test } => {
                self.open_span(SpanKind::Test, test.clone(), now);
            },
            TestEvent::StepStarted { label, .. } => {
                self.open_span(SpanKind::Step, label.clone(), now);
            },
            TestEvent::LlmCallStarted { endpoint, model, purpose, .. } => {
                let mut name = "llm ".to_owned();
                name.append(purpose.as_str());
                name.append(": ");
                name.append(endpoint.as_str());
                name.append(" (");
                name.append(model.as_str());
                name.append(")");
                self.open_span(SpanKind::Llm, name, now);
            },
            TestEvent::TestFinished { .. } => {
                self.close_span(SpanKind::Test, args_value(event), now);
            },
            TestEvent::StepFinished { .. } => {
                self.close_span(SpanKind::Step, args_value(event), now);
            },
            TestEvent::LlmCallFinished { .. } => {
                self.close_span(SpanKind::Llm, args_value(event), now);
            },
            _ => {},
        }
    }

    /// The trace document of the closed spans.
    pub fn document(&self) -> (r: serde_json::Value)
        ensures
            json::json_of(r) == document_of(self@),
    {
        json::object2(
            "traceEvents",
            json::json_array(json::copy_values(&self.events)),
            "displayTimeUnit",
            json::json_string("ms"),
        )
    }
}

/// The member of a span.
proof fn lemma_span_members(span: SpanView, base: u64, now: u64, args: Json)
    ensures
        ({
            let e = span_event(span, base, now, args);
            &&& e.member("name"@) == Json::Str(span.name)
            &&& e.member("ph"@) == Json::Str("X"@)
            &&& e.member("ts"@) == Json::UInt(elapsed(base, span.start))
            &&& e.member("dur"@) == Json::UInt(elapsed(span.start, now))
            &&& e.member("cat"@) == Json::Str(span.kind.category())
            &&& e.member("args"@) == args
        }),
{
    reveal_strlit("name");
    reveal_strlit("ph");
    reveal_strlit("ts");
    reveal_strlit("dur");
    reveal_strlit("pid");
    reveal_strlit("tid");
    reveal_strlit("cat");
    reveal_strlit("args");
    assert("name"@.len() == 4 && "args"@.len() == 4 && "name"@[0] == 'n' && "args"@[0] == 'a');
    assert("ph"@.len() == 2 && "ts"@.len() == 2 && "ph"@[0] == 'p' && "ts"@[0] == 't');
    assert("dur"@.len() == 3 && "pid"@.len() == 3 && "tid"@.len() == 3 && "cat"@.len() == 3);
    assert("dur"@[0] == 'd' && "pid"@[0] == 'p' && "tid"@[0] == 't' && "cat"@[0] == 'c');
    let all = seq![
        ("name"@, Json::Str(span.name)),
        ("ph"@, Json::Str("X"@)),
        ("ts"@, Json::UInt(elapsed(base, span.start))),
        ("dur"@, Json::UInt(elapsed(span.start, now))),
        ("pid"@, Json::UInt(1)),
        ("tid"@, Json::UInt(1)),
        ("cat"@, Json::Str(span.kind.category())),
        ("args"@, args),
    ];
    json::lemma_member(all, 0);
    json::lemma_member(all, 1);
    json::lemma_member(all, 2);
    json::lemma_member(all, 3);
    json::lemma_member(all, 6);
    json::lemma_member(all, 7);
}

/// A span that is opened and closed is traced once, under its name and kind,
/// from when it was opened and for as long as it was open; the spans around
/// it stay open.
pub proof fn law_spans_are_traced_from_start_to_end(
    t: TraceView,
    kind: SpanKind,
    name: Seq<char>,
    args: Json,
    start: u64,
    now: u64,
)
    requires
        t.base matches Some(b) && b <= start,
        start <= now,
    ensures
        ({
            let after = closed_span(opened(t, kind, name, start), kind, args, now);
            &&& after.open == t.open
            &&& after.base == t.base
            &&& after.events.len() == t.events.len() + 1
            &&& after.events.drop_last() == t.events
            &&& after.events.last().member("name"@) == Json::Str(name)
            &&& after.events.last().member("ts"@) == Json::UInt((start - t.base->0) as u64)
            &&& after.events.last().member("dur"@) == Json::UInt((now - start) as u64)
            &&& after.events.last().member("args"@) == args
            &&& kind == SpanKind::Test ==> after.events.last().member("cat"@) == Json::Str("test"@)
            &&& kind == SpanKind::Step ==> after.events.last().member("cat"@) == Json::Str("step"@)
            &&& kind == SpanKind::Llm ==> after.events.last().member("cat"@) == Json::Str("llm"@)
        }),
{
    let mid = opened(t, kind, name, start);
    let span = SpanView { kind, name, start };
    assert(mid.open.last() == span);
    assert(last_span(mid.open, kind) == Some(mid.open.len() - 1));
    assert(mid.open.remove(mid.open.len() - 1) =~= t.open);
    lemma_span_members(span, t.base->0, now, args);
    let after = closed_span(mid, kind, args, now);
    assert(after.events.drop_last() =~= t.events);
}

/// What starts opens a span, what finishes closes the innermost of its kind,
/// and nothing else leaves a trace. The clock starts with the first event.
pub proof fn law_events_open_and_close_spans(before: TraceView, event: TestEvent, now: u64)
    ensures
        ({
            let after = traced(before, event, now);
            &&& before.base is Some ==> after.base == before.base
            &&& before.base is None ==> after.base == Some(now)
            &&& event is TestStarted || event is StepStarted || event is LlmCallStarted ==> {
                &&& after.open.len() == before.open.len() + 1
                &&& after.open.drop_last() == before.open
                &&& after.open.last().start == now
                &&& after.events == before.events
            }
            &&& event matches TestEvent::TestStarted { test } ==> after.open.last().name == test@
                && after.open.last().kind == SpanKind::Test
            &&& event matches TestEvent::StepStarted { label, .. } ==> after.open.last().name
                == label@ && after.open.last().kind == SpanKind::Step
            &&& event is LlmCallStarted ==> after.open.last().kind == SpanKind::Llm
            &&& event is RunStarted || event is RunFinished || event is Warning ==> after.open
                == before.open && after.events == before.events
            &&& (event is TestFinished && before.open.len() > 0 && before.open.last().kind
                == SpanKind::Test) || (event is StepFinished && before.open.len() > 0
                && before.open.last().kind == SpanKind::Step) || (event is LlmCallFinished
                && before.open.len() > 0 && before.open.last().kind == SpanKind::Llm) ==> {
                &&& after.open == before.open.drop_last()
                &&& after.events.len() == before.events.len() + 1
                &&& after.events.last().member("name"@) == Json::Str(before.open.last().name)
            }
        }),
{
    let base = if before.base is Some {
        before.base->0
    } else {
        now
    };
    let after = traced(before, event, now);
    if event is TestStarted || event is StepStarted || event is LlmCallStarted {
        assert(after.open.drop_last() =~= before.open);
    }
    if before.open.len() > 0 {
        lemma_span_members(before.open.last(), base, now, span_args(event));
        assert(before.open.remove(before.open.len() - 1) =~= before.open.drop_last());
    }
}

/// The document holds every span that was closed, in the order in which they
/// were.
pub proof fn law_documents_hold_the_spans(t: TraceView)
    ensures
        document_of(t).member("traceEvents"@) == Json::Arr(t.events),
        document_of(t).member("displayTimeUnit"@) == Json::Str("ms"@),
{
    reveal_strlit("traceEvents");
    reveal_strlit("displayTimeUnit");
    assert("traceEvents"@.len() == 11 && "displayTimeUnit"@.len() == 15);
    let all = seq![("traceEvents"@, Json::Arr(t.events)), ("displayTimeUnit"@, Json::Str("ms"@))];
    json::lemma_member(all, 0);
    json::lemma_member(all, 1);
}

} // verus!
