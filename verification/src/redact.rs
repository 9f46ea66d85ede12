//! Secret redaction for every report sink.
//!
//! All run output flows through [`crate::reporting::Reporter`]. The
//! [`Redactor`] held by the reporter replaces known secret values with
//! `[REDACTED]` before any sink sees the text.
//!
//! Secrets come from three places: the scenario configuration
//! ([`collect_secrets_from_scenario_config`]), tokens obtained at run time
//! ([`observe_secret`]), and explicit extras (`add_secret` with a minimum
//! length of 0).
//!
//! Redaction is exact-match, case-sensitive substring replacement. Values
//! shorter than [`MIN_SECRET_LEN`] characters are skipped when they come from
//! the configuration or from run time; explicit extras always apply.
use vstd::prelude::*;
use crate::events::TestEvent;
use crate::scenario::{EndpointConfig, Named, ScenarioConfig};
use crate::text;

verus! {

/// Replacement text for every redacted value.
pub const REDACTED: &'static str = "[REDACTED]";

/// Shortest secret, in characters, worth registering from the configuration or
/// from run time.
pub const MIN_SECRET_LEN: usize = 6;

/// Maximum number of runtime-observed secrets kept. The oldest are dropped
/// first.
pub const OBSERVED_CAP: usize = 512;

/// `text` with every occurrence of every secret replaced, one secret after
/// the other.
pub open spec fn redacted(text: Seq<char>, secrets: Seq<Seq<char>>) -> Seq<char>
    decreases secrets.len(),
{
    if secrets.len() == 0 {
        text
    } else {
        text::replaced(redacted(text, secrets.drop_last()), secrets.last(), REDACTED@)
    }
}

/// Ordered set of runtime-observed secrets, oldest first.
pub struct ObservedRegistry {
    order: Vec<String>,
}

impl View for ObservedRegistry {
    type V = Seq<Seq<char>>;

    closed spec fn view(&self) -> Seq<Seq<char>> {
        text::views(self.order@)
    }
}

/// What a registry holds after `value` was inserted.
pub open spec fn registered(order: Seq<Seq<char>>, value: Seq<char>) -> Seq<Seq<char>> {
    if order.contains(value) {
        order
    } else if order.len() >= OBSERVED_CAP {
        order.skip(1).push(value)
    } else {
        order.push(value)
    }
}

impl ObservedRegistry {
    /// No secret twice, none empty, and no more than the cap.
    pub open spec fn wf(&self) -> bool {
        &&& self@.no_duplicates()
        &&& self@.len() <= OBSERVED_CAP
        &&& forall|i: int| 0 <= i < self@.len() ==> (#[trigger] self@[i]).len() > 0
    }

    /// An empty registry.
    pub fn new() -> (r: Self)
        ensures
            r.wf(),
            r@ == Seq::<Seq<char>>::empty(),
    {
        let r = ObservedRegistry { order: Vec::new() };
        assert(r@ =~= Seq::<Seq<char>>::empty());
        r
    }

    /// Inserts a value, dropping the oldest entry at the cap.
    pub fn insert(&mut self, value: String)
        requires
            old(self).wf(),
            value@.len() > 0,
        ensures
            final(self).wf(),
            final(self)@ == registered(old(self)@, value@),
    {
        if list_has(&self.order, value.as_str()) {
            return;
        }
        let ghost before = self@;
        if self.order.len() >= OBSERVED_CAP {
            self.order.remove(0);
            assert(self@ =~= before.skip(1));
        }
        let ghost kept = self@;
        self.order.push(value);
        assert(self@ =~= kept.push(value@));
        assert(self@.no_duplicates());
    }

    /// The registered secrets in insertion order.
    pub fn iter(&self) -> (r: &Vec<String>)
        ensures
            text::views(r@) == self@,
    {
        &self.order
    }
}

/// Whether `list` holds `value`.
fn list_has(list: &Vec<String>, value: &str) -> (r: bool)
    ensures
        r == text::views(list@).contains(value@),
{
    let mut i: usize = 0;
    while i < list.len()
        invariant
            i <= list@.len(),
            forall|k: int| 0 <= k < i ==> text::views(list@)[k] != value@,
        decreases list@.len() - i,
    {
        if text::same_text(list[i].as_str(), value) {
            assert(text::views(list@)[i as int] == value@);
            return true;
        }
        i += 1;
    }
    false
}

/// Registers a runtime-obtained secret so that every later redaction replaces
/// it. Values shorter than [`MIN_SECRET_LEN`] characters are ignored,
/// duplicates are registered once, and the registry holds at most [`OBSERVED_CAP`].
pub fn observe_secret(observed: &mut ObservedRegistry, value: &str)
    requires
        old(observed).wf(),
    ensures
        final(observed).wf(),
        final(observed)@ == if value@.len() < MIN_SECRET_LEN {
            old(observed)@
        } else {
            registered(old(observed)@, value@)
        },
{
    if text::chars_of(value).len() < MIN_SECRET_LEN {
        return;
    }
    observed.insert(value.to_owned());
}

/// Replaces known secret values in a string with `[REDACTED]`.
pub struct Redactor {
    /// The local secrets, in the order in which they were added.
    pub secrets: Vec<String>,
}

impl View for Redactor {
    type V = Seq<Seq<char>>;

    open spec fn view(&self) -> Seq<Seq<char>> {
        text::views(self.secrets@)
    }
}

/// What a redactor holds after `value` was offered to it.
pub open spec fn with_secret(secrets: Seq<Seq<char>>, value: Seq<char>, min_len: int) -> Seq<
    Seq<char>,
> {
    if value.len() == 0 || value.len() < min_len || secrets.contains(value) {
        secrets
    } else {
        secrets.push(value)
    }
}

/// What a redactor holds after all of `values` were offered to it.
pub open spec fn with_secrets(secrets: Seq<Seq<char>>, values: Seq<String>) -> Seq<Seq<char>>
    decreases values.len(),
{
    if values.len() == 0 {
        secrets
    } else {
        with_secret(
            with_secrets(secrets, values.drop_last()),
            values.last()@,
            MIN_SECRET_LEN as int,
        )
    }
}

impl Redactor {
    /// No secret twice and none empty.
    pub open spec fn wf(&self) -> bool {
        &&& self@.no_duplicates()
        &&& forall|i: int| 0 <= i < self@.len() ==> (#[trigger] self@[i]).len() > 0
    }

    /// What a text is shown as.
    pub open spec fn shown(&self, observed: &ObservedRegistry, text: Seq<char>) -> Seq<char> {
        redacted(redacted(text, self@), observed@)
    }

    /// Creates an empty redactor.
    pub fn new() -> (r: Self)
        ensures
            r.wf(),
            r@ == Seq::<Seq<char>>::empty(),
    {
        let r = Redactor { secrets: Vec::new() };
        assert(r@ =~= Seq::<Seq<char>>::empty());
        r
    }

    /// Records a secret value when it is at least `min_len` characters
    /// long and not empty. Explicit extras pass 0 so that they always apply.
    pub fn add_secret(&mut self, value: &str, min_len: usize)
        requires
            old(self).wf(),
        ensures
            final(self).wf(),
            final(self)@ == with_secret(old(self)@, value@, min_len as int),
    {
        if value.is_empty() || text::chars_of(value).len() < min_len {
            return;
        }
        if list_has(&self.secrets, value) {
            return;
        }
        let ghost before = self@;
        self.secrets.push(value.to_owned());
        assert(self@ =~= before.push(value@));
    }

    /// Records secrets of the configuration, applying [`MIN_SECRET_LEN`].
    pub fn add_secret_values(&mut self, values: Vec<String>)
        requires
            old(self).wf(),
        ensures
            final(self).wf(),
            final(self)@ == with_secrets(old(self)@, values@),
    {
        let mut i: usize = 0;
        while i < values.len()
            invariant
                i <= values@.len(),
                self.wf(),
                self@ == with_secrets(old(self)@, values@.take(i as int)),
            decreases values@.len() - i,
        {
            self.add_secret(values[i].as_str(), MIN_SECRET_LEN);
            assert(values@.take(i + 1).drop_last() =~= values@.take(i as int));
            i += 1;
        }
        assert(values@.take(i as int) =~= values@);
    }

    /// Whether no local secrets are registered (runtime-observed secrets may
    /// still apply).
    pub fn is_empty(&self) -> (r: bool)
        ensures
            r == (self@.len() == 0),
    {
        self.secrets.len() == 0
    }

    /// Replaces every occurrence of every registered secret (local list
    /// first, then the observed ones) with `[REDACTED]`.
    pub fn redact(&self, observed: &ObservedRegistry, input: &str) -> (r: String)
        requires
            self.wf(),
            observed.wf(),
        ensures
            r@ == self.shown(observed, input@),
    {
        let local = redact_list(&self.secrets, input);
        redact_list(observed.iter(), local.as_str())
    }

    /// `after` is `before` redacted, if there is one.
    pub open spec fn shows_option(
        &self,
        observed: &ObservedRegistry,
        before: Option<String>,
        after: Option<String>,
    ) -> bool {
        match (before, after) {
            (Some(b), Some(a)) => a@ == self.shown(observed, b@),
            (None, None) => true,
            _ => false,
        }
    }

    /// `after` is the event `before` with every text redacted and every other
    /// field as it was.
    pub open spec fn shows_event(
        &self,
        observed: &ObservedRegistry,
        before: TestEvent,
        after: TestEvent,
    ) -> bool {
        match (before, after) {
            (
                TestEvent::RunStarted { total_tests },
                TestEvent::RunStarted { total_tests: total_tests2 },
            ) => {
                &&& total_tests2 == total_tests
            },
            (
                TestEvent::TestStarted { test },
                TestEvent::TestStarted { test: test2 },
            ) => {
                &&& test2@ == self.shown(observed, test@)
            },
            (
                TestEvent::StepStarted { test, index, label },
                TestEvent::StepStarted { test: test2, index: index2, label: label2 },
            ) => {
                &&& test2@ == self.shown(observed, test@)
                &&& index2 == index
                &&& label2@ == self.shown(observed, label@)
            },
            (
                TestEvent::StepFinished { test, index, label, status, duration_ms, message, diagnostics, screenshot },
                TestEvent::StepFinished { test: test2, index: index2, label: label2, status: status2, duration_ms: duration_ms2, message: message2, diagnostics: diagnostics2, screenshot: screenshot2 },
            ) => {
                &&& test2@ == self.shown(observed, test@)
                &&& index2 == index
                &&& label2@ == self.shown(observed, label@)
                &&& status2 == status
                &&& duration_ms2 == duration_ms
                &&& message2@ == self.shown(observed, message@)
                &&& self.shows_option(observed, diagnostics, diagnostics2)
                &&& self.shows_option(observed, screenshot, screenshot2)
            },
            (
                TestEvent::LlmCallStarted { test, index, endpoint, model, purpose },
                TestEvent::LlmCallStarted { test: test2, index: index2, endpoint: endpoint2, model: model2, purpose: purpose2 },
            ) => {
                &&& test2@ == self.shown(observed, test@)
                &&& index2 == index
                &&& endpoint2@ == self.shown(observed, endpoint@)
                &&& model2@ == self.shown(observed, model@)
                &&& purpose2@ == self.shown(observed, purpose@)
            },
            (
                TestEvent::LlmCallFinished { test, index, endpoint, model, purpose, ok, duration_ms, input_tokens, output_tokens, cost, error },
                TestEvent::LlmCallFinished { test: test2, index: index2, endpoint: endpoint2, model: model2, purpose: purpose2, ok: ok2, duration_ms: duration_ms2, input_tokens: input_tokens2, output_tokens: output_tokens2, cost: cost2, error: error2 },
            ) => {
                &&& test2@ == self.shown(observed, test@)
                &&& index2 == index
                &&& endpoint2@ == self.shown(observed, endpoint@)
                &&& model2@ == self.shown(observed, model@)
                &&& purpose2@ == self.shown(observed, purpose@)
                &&& ok2 == ok
                &&& duration_ms2 == duration_ms
                &&& input_tokens2 == input_tokens
                &&& output_tokens2 == output_tokens
                &&& cost2 == cost
                &&& self.shows_option(observed, error, error2)
            },
            (
                TestEvent::TestFinished { test, passed, failed, skipped, duration_ms, cost, tokens, calls },
                TestEvent::TestFinished { test: test2, passed: passed2, failed: failed2, skipped: skipped2, duration_ms: duration_ms2, cost: cost2, tokens: tokens2, calls: calls2 },
            ) => {
                &&& test2@ == self.shown(observed, test@)
                &&& passed2 == passed
                &&& failed2 == failed
                &&& skipped2 == skipped
                &&& duration_ms2 == duration_ms
                &&& cost2 == cost
                &&& tokens2 == tokens
                &&& calls2 == calls
            },
            (
                TestEvent::RunFinished { tests_passed, tests_failed, steps_passed, steps_failed, steps_skipped, total_cost, total_tokens, total_calls },
                TestEvent::RunFinished { tests_passed: tests_passed2, tests_failed: tests_failed2, steps_passed: steps_passed2, steps_failed: steps_failed2, steps_skipped: steps_skipped2, total_cost: total_cost2, total_tokens: total_tokens2, total_calls: total_calls2 },
            ) => {
                &&& tests_passed2 == tests_passed
                &&& tests_failed2 == tests_failed
                &&& steps_passed2 == steps_passed
                &&& steps_failed2 == steps_failed
                &&& steps_skipped2 == steps_skipped
                &&& total_cost2 == total_cost
                &&& total_tokens2 == total_tokens
                &&& total_calls2 == total_calls
            },
            (
                TestEvent::Warning { message },
                TestEvent::Warning { message: message2 },
            ) => {
                &&& message2@ == self.shown(observed, message@)
            },
            _ => false,
        }
    }

    /// Redacts an optional text.
    fn redact_option(&self, observed: &ObservedRegistry, input: &Option<String>) -> (r: Option<String>)
        requires
            self.wf(),
            observed.wf(),
        ensures
            self.shows_option(observed, *input, r),
    {
        match input {
            Some(text) => Some(self.redact(observed, text.as_str())),
            None => None,
        }
    }

    /// A copy of the event with every text redacted; numbers and statuses are
    /// copied as they are.
    pub fn redact_event(&self, observed: &ObservedRegistry, event: &TestEvent) -> (r: TestEvent)
        requires
            self.wf(),
            observed.wf(),
        ensures
            self.shows_event(observed, *event, r),
    {
        match event {
            TestEvent::RunStarted { total_tests } => TestEvent::RunStarted {
                total_tests: *total_tests,
            },
            TestEvent::TestStarted { test } => TestEvent::TestStarted {
                test: self.redact(observed, test.as_str()),
            },
            TestEvent::StepStarted { test, index, label } => TestEvent::StepStarted {
                test: self.redact(observed, test.as_str()),
                index: *index,
                label: self.redact(observed, label.as_str()),
            },
            TestEvent::StepFinished { test, index, label, status, duration_ms, message, diagnostics, screenshot } => TestEvent::StepFinished {
                test: self.redact(observed, test.as_str()),
                index: *index,
                label: self.redact(observed, label.as_str()),
                status: *status,
                duration_ms: *duration_ms,
                message: self.redact(observed, message.as_str()),
                diagnostics: self.redact_option(observed, diagnostics),
                screenshot: self.redact_option(observed, screenshot),
            },
            TestEvent::LlmCallStarted { test, index, endpoint, model, purpose } => TestEvent::LlmCallStarted {
                test: self.redact(observed, test.as_str()),
                index: *index,
                endpoint: self.redact(observed, endpoint.as_str()),
                model: self.redact(observed, model.as_str()),
                purpose: self.redact(observed, purpose.as_str()),
            },
            TestEvent::LlmCallFinished { test, index, endpoint, model, purpose, ok, duration_ms, input_tokens, output_tokens, cost, error } => TestEvent::LlmCallFinished {
                test: self.redact(observed, test.as_str()),
                index: *index,
                endpoint: self.redact(observed, endpoint.as_str()),
                model: self.redact(observed, model.as_str()),
                purpose: self.redact(observed, purpose.as_str()),
                ok: *ok,
                duration_ms: *duration_ms,
                input_tokens: *input_tokens,
                output_tokens: *output_tokens,
                cost: *cost,
                error: self.redact_option(observed, error),
            },
            TestEvent::TestFinished { test, passed, failed, skipped, duration_ms, cost, tokens, calls } => TestEvent::TestFinished {
                test: self.redact(observed, test.as_str()),
                passed: *passed,
                failed: *failed,
                skipped: *skipped,
                duration_ms: *duration_ms,
                cost: *cost,
                tokens: *tokens,
                calls: *calls,
            },
            TestEvent::RunFinished { tests_passed, tests_failed, steps_passed, steps_failed, steps_skipped, total_cost, total_tokens, total_calls } => TestEvent::RunFinished {
                tests_passed: *tests_passed,
                tests_failed: *tests_failed,
                steps_passed: *steps_passed,
                steps_failed: *steps_failed,
                steps_skipped: *steps_skipped,
                total_cost: *total_cost,
                total_tokens: *total_tokens,
                total_calls: *total_calls,
            },
            TestEvent::Warning { message } => TestEvent::Warning {
                message: self.redact(observed, message.as_str()),
            },
        }
    }
}

/// Replaces every occurrence of every secret of a list.
fn redact_list(secrets: &Vec<String>, input: &str) -> (r: String)
    ensures
        r@ == redacted(input@, text::views(secrets@)),
{
    let mut out = input.to_owned();
    let mut i: usize = 0;
    assert(text::views(secrets@).take(0) =~= Seq::<Seq<char>>::empty());
    while i < secrets.len()
        invariant
            i <= secrets@.len(),
            out@ == redacted(input@, text::views(secrets@).take(i as int)),
        decreases secrets@.len() - i,
    {
        out = text::replace_text(out.as_str(), secrets[i].as_str(), REDACTED);
        assert(text::views(secrets@).take(i + 1).drop_last() =~= text::views(secrets@).take(i as int));
        assert(text::views(secrets@).take(i + 1).last() == secrets@[i as int]@);
        i += 1;
    }
    assert(text::views(secrets@).take(i as int) =~= text::views(secrets@));
    out
}

/// Header names whose values are treated as secrets, in lower case.
pub open spec fn sensitive_name(name: Seq<char>) -> bool {
    ||| name == "authorization"@
    ||| name == "proxy-authorization"@
    ||| name == "api-key"@
    ||| name == "api_key"@
    ||| name == "x-api-key"@
    ||| name == "x-auth-token"@
    ||| name == "authentication"@
    ||| name == "token"@
    ||| name == "cookie"@
    ||| name == "x-amz-security-token"@
}

/// Whether the values of headers of this name are secrets, whatever the case
/// of the name.
fn is_sensitive_header(name: &str) -> (r: bool)
    ensures
        r == sensitive_name(text::lower_ascii(name@)),
{
    let low = text::ascii_lowercase(name);
    let n = low.as_str();
    text::same_text(n, "authorization") || text::same_text(n, "proxy-authorization")
        || text::same_text(n, "api-key") || text::same_text(n, "api_key") || text::same_text(
        n,
        "x-api-key",
    ) || text::same_text(n, "x-auth-token") || text::same_text(n, "authentication")
        || text::same_text(n, "token") || text::same_text(n, "cookie") || text::same_text(
        n,
        "x-amz-security-token",
    )
}

/// The values of the sensitive headers of a list, in order.
pub open spec fn sensitive_values(headers: Seq<(String, String)>) -> Seq<Seq<char>>
    decreases headers.len(),
{
    if headers.len() == 0 {
        Seq::empty()
    } else {
        let before = sensitive_values(headers.drop_last());
        if sensitive_name(text::lower_ascii(headers.last().0@)) {
            before.push(headers.last().1@)
        } else {
            before
        }
    }
}

/// Pushes the values of sensitive-named headers (whatever their case) into
/// `out`.
pub fn collect_sensitive_header_values(headers: &Named<String>, out: &mut Vec<String>)
    ensures
        text::views(final(out)@) == text::views(old(out)@) + sensitive_values(headers@),
{
    let mut i: usize = 0;
    assert(text::views(out@) =~= text::views(old(out)@) + sensitive_values(headers@.take(0)));
    while i < headers.len()
        invariant
            i <= headers@.len(),
            text::views(out@) == text::views(old(out)@) + sensitive_values(headers@.take(i as int)),
        decreases headers@.len() - i,
    {
        assert(headers@.take(i + 1).drop_last() =~= headers@.take(i as int));
        let ghost before = text::views(out@);
        if is_sensitive_header(headers[i].0.as_str()) {
            out.push(headers[i].1.clone());
            assert(text::views(out@) =~= before.push(headers@[i as int].1@));
            assert(text::views(out@) =~= text::views(old(out)@) + sensitive_values(headers@.take(i + 1)));
        }
        i += 1;
    }
    assert(headers@.take(i as int) =~= headers@);
}

/// The value, if there is one.
pub open spec fn one_or_none(value: Option<String>) -> Seq<Seq<char>> {
    match value {
        Some(v) => seq![v@],
        None => Seq::empty(),
    }
}

/// Pushes the value, if there is one.
fn push_option(value: &Option<String>, out: &mut Vec<String>)
    ensures
        text::views(final(out)@) == text::views(old(out)@) + one_or_none(*value),
{
    if let Some(v) = value {
        out.push(v.clone());
        assert(text::views(out@) =~= text::views(old(out)@) + one_or_none(*value));
    } else {
        assert(text::views(out@) =~= text::views(old(out)@) + one_or_none(*value));
    }
}

/// The secrets of one endpoint, in order.
pub open spec fn endpoint_secrets(ep: EndpointConfig) -> Seq<Seq<char>> {
    one_or_none(ep.api_key) + one_or_none(ep.auth.client_secret) + one_or_none(
        ep.aws.secret_access_key,
    ) + one_or_none(ep.aws.session_token) + sensitive_values(ep.headers@)
}

/// The secrets of a list of endpoints, in order.
pub open spec fn endpoints_secrets(endpoints: Seq<(String, EndpointConfig)>) -> Seq<Seq<char>>
    decreases endpoints.len(),
{
    if endpoints.len() == 0 {
        Seq::empty()
    } else {
        endpoints_secrets(endpoints.drop_last()) + endpoint_secrets(endpoints.last().1)
    }
}

/// The secrets of a configuration, in order.
pub open spec fn config_secrets(cfg: ScenarioConfig) -> Seq<Seq<char>> {
    one_or_none(cfg.llm_api_key) + sensitive_values(cfg.llm_headers@) + endpoints_secrets(
        cfg.endpoints@,
    )
}

/// Gathers the startup-known secrets of a scenario configuration: LLM API
/// keys, endpoint credentials and sensitive header values. The length guard
/// is applied by [`Redactor::add_secret_values`].
pub fn collect_secrets_from_scenario_config(cfg: &ScenarioConfig) -> (r: Vec<String>)
    ensures
        text::views(r@) == config_secrets(*cfg),
{
    let mut secrets: Vec<String> = Vec::new();
    push_option(&cfg.llm_api_key, &mut secrets);
    collect_sensitive_header_values(&cfg.llm_headers, &mut secrets);
    let ghost first = one_or_none(cfg.llm_api_key) + sensitive_values(cfg.llm_headers@);
    let mut i: usize = 0;
    assert(text::views(secrets@) =~= first + endpoints_secrets(cfg.endpoints@.take(0)));
    while i < cfg.endpoints.len()
        invariant
            i <= cfg.endpoints@.len(),
            text::views(secrets@) == first + endpoints_secrets(cfg.endpoints@.take(i as int)),
        decreases cfg.endpoints@.len() - i,
    {
        let ep = &cfg.endpoints[i].1;
        let ghost before = text::views(secrets@);
        push_option(&ep.api_key, &mut secrets);
        push_option(&ep.auth.client_secret, &mut secrets);
        push_option(&ep.aws.secret_access_key, &mut secrets);
        push_option(&ep.aws.session_token, &mut secrets);
        collect_sensitive_header_values(&ep.headers, &mut secrets);
        assert(text::views(secrets@) =~= before + endpoint_secrets(*ep));
        assert(cfg.endpoints@.take(i + 1).drop_last() =~= cfg.endpoints@.take(i as int));
        assert(text::views(secrets@) =~= first + endpoints_secrets(cfg.endpoints@.take(i + 1)));
        i += 1;
    }
    assert(cfg.endpoints@.take(i as int) =~= cfg.endpoints@);
    secrets
}

/// `a` laid over `b`, shifted by `d`, differs from it somewhere.
pub open spec fn clash(a: Seq<char>, b: Seq<char>, d: int) -> bool {
    exists|i: int| 0 <= i < a.len() && 0 <= i + d < b.len() && #[trigger] a[i] != b[i + d]
}

/// However `a` is laid over a part of `b`, the two differ: no occurrence of
/// `a` can begin, end or lie in a `b`, nor hold one.
pub open spec fn apart(a: Seq<char>, b: Seq<char>) -> bool {
    forall|d: int| -a.len() < d < b.len() ==> #[trigger] clash(a, b, d)
}

/// What is left of a secret at the front of a redacted text stood there
/// before.
proof fn lemma_front_kept(x: Seq<char>, t: Seq<char>, m: Seq<char>, s: Seq<char>, k: int)
    requires
        apart(s, m),
        m.len() > 0,
        0 <= k <= s.len(),
        text::occurs_at(text::replaced(x, t, m), s.skip(k), 0),
    ensures
        text::occurs_at(x, s.skip(k), 0),
    decreases x.len(),
{
    let u = s.skip(k);
    let y = text::replaced(x, t, m);
    assert(y.subrange(0, u.len() as int) =~= u);
    if u.len() == 0 {
        assert(x.subrange(0, 0) =~= u);
    } else if t.len() == 0 || x.len() == 0 {
    } else if text::occurs_at(x, t, 0) {
        assert(clash(s, m, -k));
        let i = choose|i: int|
            0 <= i < s.len() && 0 <= i + (-k) < m.len() && #[trigger] s[i] != m[i + (-k)];
        assert(y.subrange(0, u.len() as int)[i - k] == m[i - k]);
        assert(u[i - k] == s[i]);
    } else {
        let rest = text::replaced(x.skip(1), t, m);
        assert(y.subrange(0, u.len() as int)[0] == x[0]);
        assert(s.skip(k + 1) =~= u.skip(1));
        assert(rest.subrange(0, u.len() - 1) =~= y.subrange(0, u.len() as int).skip(1));
        lemma_front_kept(x.skip(1), t, m, s, k + 1);
        assert(x.skip(1).subrange(0, u.len() - 1) =~= u.skip(1));
        assert(x.subrange(0, u.len() as int) =~= u) by {
            assert forall|j: int| 0 <= j < u.len() implies x[j] == u[j] by {
                if j > 0 {
                    assert(x.skip(1).subrange(0, u.len() - 1)[j - 1] == x[j]);
                    assert(u.skip(1)[j - 1] == u[j]);
                }
            }
        }
    }
}

/// Replacing any text by the marker brings no secret in, and replacing a
/// secret takes it out.
proof fn lemma_replaced_free(x: Seq<char>, t: Seq<char>, m: Seq<char>, s: Seq<char>, p: int)
    requires
        apart(s, m),
        m.len() > 0,
        s.len() > 0,
        t == s || !text::has_text(x, s),
    ensures
        !text::occurs_at(text::replaced(x, t, m), s, p),
    decreases x.len(),
{
    let y = text::replaced(x, t, m);
    if text::occurs_at(y, s, p) {
        assert(y.subrange(p, p + s.len()) =~= s);
        if t.len() == 0 || x.len() == 0 {
            assert(text::occurs_at(x, s, p));
        } else if text::occurs_at(x, t, 0) {
            let x2 = x.skip(t.len() as int);
            let y2 = text::replaced(x2, t, m);
            if p >= m.len() {
                lemma_absent_in_rest(x, s, t.len() as int);
                assert(y2.subrange(p - m.len(), p - m.len() + s.len()) =~= y.subrange(
                    p,
                    p + s.len(),
                ));
                lemma_replaced_free(x2, t, m, s, p - m.len());
            } else {
                assert(clash(s, m, p));
                let i = choose|i: int|
                    0 <= i < s.len() && 0 <= i + p < m.len() && #[trigger] s[i] != m[i + p];
                assert(y.subrange(p, p + s.len())[i] == m[i + p]);
            }
        } else {
            let x2 = x.skip(1);
            let y2 = text::replaced(x2, t, m);
            if p >= 1 {
                lemma_absent_in_rest(x, s, 1);
                assert(y2.subrange(p - 1, p - 1 + s.len()) =~= y.subrange(p, p + s.len()));
                lemma_replaced_free(x2, t, m, s, p - 1);
            } else {
                assert(s.skip(0) =~= s);
                lemma_front_kept(x, t, m, s, 0);
                assert(text::occurs_at(x, s, 0));
            }
        }
    }
}

/// What does not occur in a text does not occur in its end.
proof fn lemma_absent_in_rest(x: Seq<char>, s: Seq<char>, n: int)
    requires
        0 <= n <= x.len(),
    ensures
        !text::has_text(x, s) ==> !text::has_text(x.skip(n), s),
{
    if text::has_text(x.skip(n), s) {
        let i = choose|i: int| #[trigger] text::occurs_at(x.skip(n), s, i);
        assert(x.subrange(n + i, n + i + s.len()) =~= x.skip(n).subrange(i, i + s.len()));
        assert(text::occurs_at(x, s, n + i));
    }
}

/// A text without a secret is left as it is by its replacement.
proof fn lemma_replaced_same(x: Seq<char>, t: Seq<char>, m: Seq<char>)
    requires
        !text::has_text(x, t),
    ensures
        text::replaced(x, t, m) == x,
    decreases x.len(),
{
    if t.len() > 0 && x.len() > 0 {
        assert(!text::occurs_at(x, t, 0));
        lemma_absent_in_rest(x, t, 1);
        lemma_replaced_same(x.skip(1), t, m);
        assert(seq![x[0]] + x.skip(1) =~= x);
    }
}

/// The marker is not empty.
proof fn lemma_marker()
    ensures
        REDACTED@.len() > 0,
{
    reveal_strlit("[REDACTED]");
}

/// A secret of the list, or one that the text never held, is not in the
/// redacted text.
proof fn lemma_redacted_free(x: Seq<char>, secrets: Seq<Seq<char>>, s: Seq<char>)
    requires
        s.len() > 0,
        apart(s, REDACTED@),
        secrets.contains(s) || !text::has_text(x, s),
    ensures
        !text::has_text(redacted(x, secrets), s),
    decreases secrets.len(),
{
    lemma_marker();
    if secrets.len() > 0 {
        let init = secrets.drop_last();
        let before = redacted(x, init);
        if secrets.last() != s {
            if secrets.contains(s) {
                let i = secrets.index_of(s);
                assert(init[i] == s);
            }
            lemma_redacted_free(x, init, s);
        }
        assert forall|p: int| !#[trigger] text::occurs_at(redacted(x, secrets), s, p) by {
            lemma_replaced_free(before, secrets.last(), REDACTED@, s, p);
        }
    }
}

/// A registered secret, local or observed, never shows in a redacted text,
/// unless it could overlap the marker `[REDACTED]` itself.
pub proof fn law_secret_never_shown(
    redactor: &Redactor,
    observed: &ObservedRegistry,
    input: Seq<char>,
    secret: Seq<char>,
)
    requires
        redactor.wf(),
        observed.wf(),
        redactor@.contains(secret) || observed@.contains(secret),
        apart(secret, REDACTED@),
    ensures
        !text::has_text(redactor.shown(observed, input), secret),
{
    let local = redacted(input, redactor@);
    if redactor@.contains(secret) {
        assert(redactor@[redactor@.index_of(secret)].len() > 0);
        lemma_redacted_free(input, redactor@, secret);
        lemma_redacted_free(local, observed@, secret);
    } else {
        assert(observed@[observed@.index_of(secret)].len() > 0);
        lemma_redacted_free(local, observed@, secret);
    }
}

/// A text that holds none of the secrets of a list is left as it is.
proof fn lemma_redacted_same(x: Seq<char>, secrets: Seq<Seq<char>>)
    requires
        forall|i: int| 0 <= i < secrets.len() ==> !#[trigger] text::has_text(x, secrets[i]),
    ensures
        redacted(x, secrets) == x,
    decreases secrets.len(),
{
    if secrets.len() > 0 {
        let init = secrets.drop_last();
        assert forall|i: int| 0 <= i < init.len() implies !#[trigger] text::has_text(
            x,
            init[i],
        ) by {
            assert(init[i] == secrets[i]);
        }
        lemma_redacted_same(x, init);
        assert(!text::has_text(x, secrets[secrets.len() - 1]));
        lemma_replaced_same(x, secrets.last(), REDACTED@);
    }
}

/// A text that holds no registered secret is shown as it is.
pub proof fn law_harmless_text_unchanged(
    redactor: &Redactor,
    observed: &ObservedRegistry,
    input: Seq<char>,
)
    requires
        forall|i: int| 0 <= i < redactor@.len() ==> !#[trigger] text::has_text(input, redactor@[i]),
        forall|i: int| 0 <= i < observed@.len() ==> !#[trigger] text::has_text(input, observed@[i]),
    ensures
        redactor.shown(observed, input) == input,
{
    lemma_redacted_same(input, redactor@);
    lemma_redacted_same(input, observed@);
}

/// Redacting what is already redacted changes nothing, when no secret could
/// overlap the marker.
pub proof fn law_redaction_idempotent(
    redactor: &Redactor,
    observed: &ObservedRegistry,
    input: Seq<char>,
)
    requires
        redactor.wf(),
        observed.wf(),
        forall|i: int| 0 <= i < redactor@.len() ==> #[trigger] apart(redactor@[i], REDACTED@),
        forall|i: int| 0 <= i < observed@.len() ==> #[trigger] apart(observed@[i], REDACTED@),
    ensures
        redactor.shown(observed, redactor.shown(observed, input)) == redactor.shown(observed, input),
{
    let once = redactor.shown(observed, input);
    assert forall|i: int| 0 <= i < redactor@.len() implies !#[trigger] text::has_text(
        once,
        redactor@[i],
    ) by {
        assert(apart(redactor@[i], REDACTED@));
        law_secret_never_shown(redactor, observed, input, redactor@[i]);
    }
    assert forall|i: int| 0 <= i < observed@.len() implies !#[trigger] text::has_text(
        once,
        observed@[i],
    ) by {
        assert(apart(observed@[i], REDACTED@));
        law_secret_never_shown(redactor, observed, input, observed@[i]);
    }
    law_harmless_text_unchanged(redactor, observed, once);
}

/// The newest observed secret is always kept, and an older one leaves only
/// when it is the oldest of a full registry.
pub proof fn law_registry_keeps_newest(order: Seq<Seq<char>>, value: Seq<char>, other: Seq<char>)
    requires
        order.len() <= OBSERVED_CAP,
        order.contains(other),
    ensures
        registered(order, value).contains(value),
        registered(order, value).len() <= OBSERVED_CAP,
        registered(order, value).contains(other) || (other == order[0] && order.len()
            == OBSERVED_CAP),
{
    let after = registered(order, value);
    if !order.contains(value) {
        assert(after.last() == value);
        let i = order.index_of(other);
        if order.len() >= OBSERVED_CAP {
            if i > 0 {
                assert(after[i - 1] == other);
            }
        } else {
            assert(after[i] == other);
        }
    }
}

/// Each occurrence of a secret is replaced by the mark, and the text around
/// it kept.
pub proof fn law_text_around_a_secret_is_kept(
    before: Seq<char>,
    secret: Seq<char>,
    after: Seq<char>,
)
    requires
        secret.len() > 0,
        text::lacks(before, secret[0]),
        text::lacks(after, secret[0]),
    ensures
        redacted(before + secret + after, seq![secret]) == before + "[REDACTED]"@ + after,
{
    text::law_replacing_one_occurrence(before, secret, "[REDACTED]"@, after);
    assert(seq![secret].drop_last() =~= Seq::<Seq<char>>::empty());
    assert(seq![secret].last() == secret);
    assert(redacted(before + secret + after, Seq::empty()) == before + secret + after);
}

/// A value becomes a secret if and only if it is long enough; what was a secret
/// stays one.
pub proof fn law_long_values_become_secrets(
    secrets: Seq<Seq<char>>,
    value: Seq<char>,
    min_len: int,
    known: Seq<char>,
)
    ensures
        value.len() > 0 && value.len() >= min_len ==> with_secret(secrets, value, min_len).contains(
            value,
        ),
        value.len() == 0 || value.len() < min_len ==> with_secret(secrets, value, min_len)
            == secrets,
        secrets.contains(known) ==> with_secret(secrets, value, min_len).contains(known),
        with_secret(secrets, value, min_len).contains(known) ==> secrets.contains(known) || known
            == value,
{
    if value.len() > 0 && value.len() >= min_len && !secrets.contains(value) {
        assert(secrets.push(value)[secrets.len() as int] == value);
        if secrets.contains(known) {
            let i = secrets.index_of(known);
            assert(secrets.push(value)[i] == known);
        }
        if secrets.push(value).contains(known) {
            let i = choose|i: int|
                0 <= i < secrets.push(value).len() && secrets.push(value)[i] == known;
            if i < secrets.len() {
                assert(secrets[i] == known);
            }
        }
    }
}

/// Of values that are added each of six characters or more is a secret then.
pub proof fn law_added_values_are_secrets(secrets: Seq<Seq<char>>, values: Seq<String>, i: int)
    requires
        0 <= i < values.len(),
        values[i]@.len() >= 6,
    ensures
        with_secrets(secrets, values).contains(values[i]@),
    decreases values.len(),
{
    let before = with_secrets(secrets, values.drop_last());
    let last = values.last()@;
    if i < values.len() - 1 {
        law_added_values_are_secrets(secrets, values.drop_last(), i);
    }
    law_long_values_become_secrets(before, last, 6, values[i]@);
}

/// What is in one of two lists is in both together.
proof fn lemma_either(a: Seq<Seq<char>>, b: Seq<Seq<char>>, x: Seq<char>)
    requires
        a.contains(x) || b.contains(x),
    ensures
        (a + b).contains(x),
{
    if a.contains(x) {
        let i = a.index_of(x);
        assert((a + b)[i] == x);
    } else {
        let i = b.index_of(x);
        assert((a + b)[a.len() + i] == x);
    }
}

/// The value of a header with a telling name is a secret, in whatever case the
/// name is written.
pub proof fn law_telling_headers_are_secret(headers: Seq<(String, String)>, i: int)
    requires
        0 <= i < headers.len(),
        ({
            let n = text::lower_ascii(headers[i].0@);
            ||| n == "authorization"@
            ||| n == "proxy-authorization"@
            ||| n == "api-key"@
            ||| n == "x-api-key"@
            ||| n == "x-auth-token"@
            ||| n == "token"@
            ||| n == "cookie"@
            ||| n == "x-amz-security-token"@
        }),
    ensures
        sensitive_values(headers).contains(headers[i].1@),
    decreases headers.len(),
{
    let rest = headers.drop_last();
    let before = sensitive_values(rest);
    let last = headers.last();
    if i == headers.len() - 1 {
        assert(before.push(last.1@)[before.len() as int] == last.1@);
    } else {
        assert(rest[i] == headers[i]);
        law_telling_headers_are_secret(rest, i);
        let k = before.index_of(headers[i].1@);
        if sensitive_name(text::lower_ascii(last.0@)) {
            assert(before.push(last.1@)[k] == headers[i].1@);
        }
    }
}

/// Only headers hold what is taken from them.
pub proof fn law_secret_values_come_from_headers(headers: Seq<(String, String)>, value: Seq<char>)
    requires
        sensitive_values(headers).contains(value),
    ensures
        exists|i: int| 0 <= i < headers.len() && (#[trigger] headers[i]).1@ == value,
    decreases headers.len(),
{
    if headers.len() > 0 {
        let rest = headers.drop_last();
        let before = sensitive_values(rest);
        let last = headers.last();
        if last.1@ == value {
            assert(headers[headers.len() - 1].1@ == value);
        } else {
            if sensitive_name(text::lower_ascii(last.0@)) {
                let k = before.push(last.1@).index_of(value);
                assert(before.push(last.1@)[k] == value);
                assert(before[k] == value);
            }
            law_secret_values_come_from_headers(rest, value);
            let i = choose|i: int| 0 <= i < rest.len() && (#[trigger] rest[i]).1@ == value;
            assert(headers[i].1@ == value);
        }
    }
}

/// The keys, the client's secret and the cloud credentials of an endpoint are
/// secrets, and so are its telling headers.
pub proof fn law_endpoint_credentials_are_secrets(ep: EndpointConfig, x: Seq<char>)
    requires
        ({
            ||| ep.api_key matches Some(k) && k@ == x
            ||| ep.auth.client_secret matches Some(k) && k@ == x
            ||| ep.aws.secret_access_key matches Some(k) && k@ == x
            ||| ep.aws.session_token matches Some(k) && k@ == x
            ||| sensitive_values(ep.headers@).contains(x)
        }),
    ensures
        endpoint_secrets(ep).contains(x),
{
    let a = one_or_none(ep.api_key);
    let b = one_or_none(ep.auth.client_secret);
    let c = one_or_none(ep.aws.secret_access_key);
    let d = one_or_none(ep.aws.session_token);
    let e = sensitive_values(ep.headers@);
    if ep.api_key is Some && ep.api_key->0@ == x {
        assert(a[0] == x);
    } else if ep.auth.client_secret is Some && ep.auth.client_secret->0@ == x {
        assert(b[0] == x);
    } else if ep.aws.secret_access_key is Some && ep.aws.secret_access_key->0@ == x {
        assert(c[0] == x);
    } else if ep.aws.session_token is Some && ep.aws.session_token->0@ == x {
        assert(d[0] == x);
    }
    if a.contains(x) || b.contains(x) {
        lemma_either(a, b, x);
    }
    if (a + b).contains(x) || c.contains(x) {
        lemma_either(a + b, c, x);
    }
    if (a + b + c).contains(x) || d.contains(x) {
        lemma_either(a + b + c, d, x);
    }
    lemma_either(a + b + c + d, e, x);
}

/// The secrets of every endpoint are among those of all.
proof fn lemma_endpoint_among(endpoints: Seq<(String, EndpointConfig)>, i: int, x: Seq<char>)
    requires
        0 <= i < endpoints.len(),
        endpoint_secrets(endpoints[i].1).contains(x),
    ensures
        endpoints_secrets(endpoints).contains(x),
    decreases endpoints.len(),
{
    let rest = endpoints.drop_last();
    if i < endpoints.len() - 1 {
        assert(rest[i] == endpoints[i]);
        lemma_endpoint_among(rest, i, x);
    }
    lemma_either(endpoints_secrets(rest), endpoint_secrets(endpoints.last().1), x);
}

/// No credential of a configuration is forgotten: neither those of the file
/// nor those of any endpoint.
pub proof fn law_every_credential_is_collected(cfg: ScenarioConfig, i: int, x: Seq<char>)
    requires
        ({
            ||| cfg.llm_api_key matches Some(k) && k@ == x
            ||| sensitive_values(cfg.llm_headers@).contains(x)
            ||| 0 <= i < cfg.endpoints@.len() && endpoint_secrets(cfg.endpoints@[i].1).contains(x)
        }),
    ensures
        config_secrets(cfg).contains(x),
{
    let a = one_or_none(cfg.llm_api_key);
    let b = sensitive_values(cfg.llm_headers@);
    let c = endpoints_secrets(cfg.endpoints@);
    if cfg.llm_api_key is Some && cfg.llm_api_key->0@ == x {
        assert(a[0] == x);
    } else if !b.contains(x) {
        lemma_endpoint_among(cfg.endpoints@, i, x);
    }
    if a.contains(x) || b.contains(x) {
        lemma_either(a, b, x);
    }
    lemma_either(a + b, c, x);
}

/// An event that is shown has its figures as they were and its texts without
/// secrets; where there is nothing to hide its texts are as they were too.
pub proof fn law_shown_events_keep_their_figures(
    redactor: &Redactor,
    observed: &ObservedRegistry,
    before: TestEvent,
    after: TestEvent,
)
    requires
        redactor.shows_event(observed, before, after),
    ensures
        before is RunStarted ==> before == after,
        before is RunFinished ==> before == after,
        before matches TestEvent::StepFinished {
            index,
            status,
            duration_ms,
            message,
            diagnostics,
            screenshot,
            ..
        } ==> (after matches TestEvent::StepFinished {
            index: i,
            status: s,
            duration_ms: d,
            message: m,
            diagnostics: g,
            screenshot: p,
            ..
        } && i == index && s == status && d == duration_ms && m@ == redactor.shown(
            observed,
            message@,
        ) && (g is Some <==> diagnostics is Some) && (p is Some <==> screenshot is Some)),
        before matches TestEvent::LlmCallFinished {
            ok,
            duration_ms,
            input_tokens,
            output_tokens,
            cost,
            error,
            ..
        } ==> (after matches TestEvent::LlmCallFinished {
            ok: o,
            duration_ms: d,
            input_tokens: a,
            output_tokens: b,
            cost: c,
            error: e,
            ..
        } && o == ok && d == duration_ms && a == input_tokens && b == output_tokens && c == cost && (
        e is Some <==> error is Some)),
        before matches TestEvent::TestFinished {
            passed,
            failed,
            skipped,
            duration_ms,
            cost,
            tokens,
            calls,
            ..
        } ==> (after matches TestEvent::TestFinished {
            passed: p,
            failed: f,
            skipped: s,
            duration_ms: d,
            cost: c,
            tokens: t,
            calls: n,
            ..
        } && p == passed && f == failed && s == skipped && d == duration_ms && c == cost && t
            == tokens && n == calls),
        redactor@.len() == 0 && observed@.len() == 0 ==> {
            &&& before matches TestEvent::Warning { message } ==> after->Warning_message@
                == message@
            &&& before matches TestEvent::TestStarted { test } ==> after->TestStarted_test@ == test@
            &&& before matches TestEvent::StepStarted { label, .. } ==> after->StepStarted_label@
                == label@
        },
{
}

/// The values of headers that are named for a key or for authentication are
/// secrets too.
pub proof fn law_keys_in_headers_are_secret(headers: Seq<(String, String)>, i: int)
    requires
        0 <= i < headers.len(),
        text::lower_ascii(headers[i].0@) == "api_key"@ || text::lower_ascii(headers[i].0@)
            == "authentication"@,
    ensures
        sensitive_values(headers).contains(headers[i].1@),
    decreases headers.len(),
{
    let rest = headers.drop_last();
    let before = sensitive_values(rest);
    let last = headers.last();
    if i == headers.len() - 1 {
        assert(before.push(last.1@)[before.len() as int] == last.1@);
    } else {
        assert(rest[i] == headers[i]);
        law_keys_in_headers_are_secret(rest, i);
        let k = before.index_of(headers[i].1@);
        if sensitive_name(text::lower_ascii(last.0@)) {
            assert(before.push(last.1@)[k] == headers[i].1@);
        }
    }
}

/// The value of a header whose name tells nothing is no secret.
pub proof fn law_plain_headers_are_no_secret(headers: Seq<(String, String)>)
    requires
        forall|i: int|
            0 <= i < headers.len() ==> {
                let n = text::lower_ascii((#[trigger] headers[i]).0@);
                n == "content-type"@ || n == "accept"@ || n == "user-agent"@ || n == "x-request-id"@
            },
    ensures
        sensitive_values(headers).len() == 0,
    decreases headers.len(),
{
    if headers.len() > 0 {
        let rest = headers.drop_last();
        assert forall|i: int| 0 <= i < rest.len() implies ({
            let n = text::lower_ascii((#[trigger] rest[i]).0@);
            n == "content-type"@ || n == "accept"@ || n == "user-agent"@ || n == "x-request-id"@
        }) by {
            assert(rest[i] == headers[i]);
        }
        law_plain_headers_are_no_secret(rest);
        let n = text::lower_ascii(headers[headers.len() - 1].0@);
        lemma_plain_name(n);
    }
}

/// Names that tell nothing.
proof fn lemma_plain_name(n: Seq<char>)
    requires
        n == "content-type"@ || n == "accept"@ || n == "user-agent"@ || n == "x-request-id"@,
    ensures
        !sensitive_name(n),
{
    reveal_strlit("content-type");
    reveal_strlit("accept");
    reveal_strlit("user-agent");
    reveal_strlit("x-request-id");
    reveal_strlit("authorization");
    reveal_strlit("proxy-authorization");
    reveal_strlit("api-key");
    reveal_strlit("api_key");
    reveal_strlit("x-api-key");
    reveal_strlit("x-auth-token");
    reveal_strlit("authentication");
    reveal_strlit("token");
    reveal_strlit("cookie");
    reveal_strlit("x-amz-security-token");
    assert("authorization"@.len() == 13 && "proxy-authorization"@.len() == 19 && "api-key"@.len()
        == 7 && "api_key"@.len() == 7 && "x-api-key"@.len() == 9 && "x-auth-token"@.len() == 12
        && "authentication"@.len() == 14 && "token"@.len() == 5 && "cookie"@.len() == 6
        && "x-amz-security-token"@.len() == 20);
    assert("content-type"@.len() == 12 && "accept"@.len() == 6 && "user-agent"@.len() == 10
        && "x-request-id"@.len() == 12);
    assert("content-type"@[0] == 'c' && "x-auth-token"@[0] == 'x' && "x-auth-token"@[2] == 'a'
        && "x-request-id"@[2] == 'r');
    assert("accept"@[0] == 'a' && "cookie"@[0] == 'c');
}

/// No text of an event that is shown holds a secret.
pub proof fn law_no_event_shows_a_secret(
    redactor: &Redactor,
    observed: &ObservedRegistry,
    before: TestEvent,
    after: TestEvent,
    secret: Seq<char>,
)
    requires
        redactor.wf(),
        observed.wf(),
        redactor@.contains(secret) || observed@.contains(secret),
        apart(secret, REDACTED@),
        redactor.shows_event(observed, before, after),
    ensures
        after matches TestEvent::TestStarted { test } ==> !text::has_text(test@, secret),
        after matches TestEvent::StepStarted { test, label, .. } ==> !text::has_text(test@, secret)
            && !text::has_text(label@, secret),
        after matches TestEvent::StepFinished {
            test,
            label,
            message,
            diagnostics,
            screenshot,
            ..
        } ==> !text::has_text(test@, secret) && !text::has_text(label@, secret) && !text::has_text(
            message@,
            secret,
        ) && (diagnostics is Some ==> !text::has_text(diagnostics->0@, secret)) && (screenshot
            is Some ==> !text::has_text(screenshot->0@, secret)),
        after matches TestEvent::LlmCallStarted { test, endpoint, model, purpose, .. }
            ==> !text::has_text(test@, secret) && !text::has_text(endpoint@, secret)
            && !text::has_text(model@, secret) && !text::has_text(purpose@, secret),
        after matches TestEvent::LlmCallFinished { test, endpoint, model, purpose, error, .. }
            ==> !text::has_text(test@, secret) && !text::has_text(endpoint@, secret)
            && !text::has_text(model@, secret) && !text::has_text(purpose@, secret) && (error
            is Some ==> !text::has_text(error->0@, secret)),
        after matches TestEvent::TestFinished { test, .. } ==> !text::has_text(test@, secret),
        after matches TestEvent::Warning { message } ==> !text::has_text(message@, secret),
{
    match before {
        TestEvent::TestStarted { test } => {
            law_secret_never_shown(redactor, observed, test@, secret);
        },
        TestEvent::StepStarted { test, label, .. } => {
            law_secret_never_shown(redactor, observed, test@, secret);
            law_secret_never_shown(redactor, observed, label@, secret);
        },
        TestEvent::StepFinished { test, label, message, diagnostics, screenshot, .. } => {
            law_secret_never_shown(redactor, observed, test@, secret);
            law_secret_never_shown(redactor, observed, label@, secret);
            law_secret_never_shown(redactor, observed, message@, secret);
            if let Some(d) = diagnostics {
                law_secret_never_shown(redactor, observed, d@, secret);
            }
            if let Some(s) = screenshot {
                law_secret_never_shown(redactor, observed, s@, secret);
            }
        },
        TestEvent::LlmCallStarted { test, endpoint, model, purpose, .. } => {
            law_secret_never_shown(redactor, observed, test@, secret);
            law_secret_never_shown(redactor, observed, endpoint@, secret);
            law_secret_never_shown(redactor, observed, model@, secret);
            law_secret_never_shown(redactor, observed, purpose@, secret);
        },
        TestEvent::LlmCallFinished { test, endpoint, model, purpose, error, .. } => {
            law_secret_never_shown(redactor, observed, test@, secret);
            law_secret_never_shown(redactor, observed, endpoint@, secret);
            law_secret_never_shown(redactor, observed, model@, secret);
            law_secret_never_shown(redactor, observed, purpose@, secret);
            if let Some(e) = error {
                law_secret_never_shown(redactor, observed, e@, secret);
            }
        },
        TestEvent::TestFinished { test, .. } => {
            law_secret_never_shown(redactor, observed, test@, secret);
        },
        TestEvent::Warning { message } => {
            law_secret_never_shown(redactor, observed, message@, secret);
        },
        _ => {},
    }
}

/// Where there is nothing to hide an event is shown with every text as it was,
/// and each stays what it was: what is no secret is not touched.
pub proof fn law_events_without_secrets_stay(
    redactor: &Redactor,
    observed: &ObservedRegistry,
    before: TestEvent,
    after: TestEvent,
)
    requires
        redactor@.len() == 0,
        observed@.len() == 0,
        redactor.shows_event(observed, before, after),
    ensures
        before matches TestEvent::StepFinished {
            test,
            index,
            label,
            message,
            diagnostics,
            screenshot,
            ..
        } ==> (after matches TestEvent::StepFinished {
            test: t,
            index: i,
            label: l,
            message: m,
            diagnostics: d,
            screenshot: s,
            ..
        } && t@ == test@ && i == index && l@ == label@ && m@ == message@ && (diagnostics is Some
            ==> d is Some && d->0@ == diagnostics->0@) && (screenshot is Some ==> s is Some && s->0@
            == screenshot->0@)),
        before matches TestEvent::StepStarted { test, index, label } ==> (
        after matches TestEvent::StepStarted { test: t, index: i, label: l } && t@ == test@ && i
            == index && l@ == label@),
        before matches TestEvent::LlmCallStarted { test, index, endpoint, model, purpose } ==> (
        after matches TestEvent::LlmCallStarted {
            test: t,
            index: i,
            endpoint: e,
            model: m,
            purpose: p,
        } && t@ == test@ && i == index && e@ == endpoint@ && m@ == model@ && p@ == purpose@),
        before matches TestEvent::LlmCallFinished {
            test,
            index,
            endpoint,
            model,
            purpose,
            error,
            ..
        } ==> (after matches TestEvent::LlmCallFinished {
            test: t,
            index: i,
            endpoint: e,
            model: m,
            purpose: p,
            error: r,
            ..
        } && t@ == test@ && i == index && e@ == endpoint@ && m@ == model@ && p@ == purpose@ && (
        error is Some ==> r is Some && r->0@ == error->0@)),
        before matches TestEvent::TestFinished { test, .. } ==> (
        after matches TestEvent::TestFinished { test: t, .. } && t@ == test@),
{
}

/// The registry holds what was seen last, up to five hundred and twelve: what is
/// new is put behind the others, and the oldest makes room for it where it is
/// full.
pub proof fn law_registry_has_room_for_many(order: Seq<Seq<char>>, value: Seq<char>)
    ensures
        order.contains(value) ==> registered(order, value) == order,
        !order.contains(value) && order.len() < 512 ==> registered(order, value) == order.push(
            value,
        ),
        !order.contains(value) && order.len() >= 512 ==> registered(order, value).len()
            == order.len() && registered(order, value).last() == value,
{
}

} // verus!
