//! A step from its first action to its result.
//!
//! [`ScenarioRunner::run_step`] says what a step asks for next, given what
//! has happened in it so far; [`StepOutcomes::happened`] adds what came of
//! it. The caller performs the actions, one after the other, until the step
//! is done.
use vstd::prelude::*;
use crate::assertions;
use crate::assertions::{AssertNext, AssertOutcomes, AssertStep, LayoutIssue};
use crate::costs;
use crate::costs::{EndpointUsage, LlmResponse, UsageSnapshot};
use crate::endpoints;
use crate::endpoints::{ResolvedEndpoint, TaskType};
use crate::events::TestEvent;
use crate::llm;
use crate::mcp_client::McpToolResult;
use crate::runner;
use crate::runner::{ScenarioRunner, TestRunResult};
use crate::scenario::{AssertDefinition, TestGroup, TestStep};
use crate::selectors;
use crate::steps;
use crate::steps::{Acted, Poll, Saved, StepNext, StepResult};
use crate::targeting;
use crate::targeting::{PageContent, TargetNext, TargetPage};
use crate::text;

verus! {

/// What a step asks for next.
pub enum StepAction {
    /// Something that the browser does.
    Browser(StepNext),
    /// Something that finding a selector takes.
    Target(TargetNext),
    /// Something that an assertion, an agent or a tool takes.
    Assert(AssertNext),
    /// Nothing: the step is over.
    Done(StepResult),
}

/// What came of an action.
pub enum StepEvent {
    /// The browser opened a page, found an element, clicked it or typed into
    /// it; or it said why not.
    Acted(Result<(), String>),
    /// A look at the page.
    Polled(Poll),
    /// A picture of the page was saved, or not.
    Pictured(Saved),
    /// The page and its interactive elements, or what the browser said.
    ElementsRead(Result<TargetPage, String>),
    /// Whether an element matches the selector.
    Checked(bool),
    /// What is said of a second answer that is no selector.
    Excerpted(String),
    /// The page.
    PageRead(PageContent),
    /// A picture of the viewport, or why there is none.
    Captured(Result<String, String>),
    /// What the LLM or the agent answered, or why it did not.
    Replied(Result<String, String>),
    /// The layout defects of the page, or what the browser said.
    Scanned(Result<Vec<LayoutIssue>, String>),
    /// What the tool answered, or why it did not.
    ToolReplied(Result<McpToolResult, String>),
}

/// What has happened in a step so far; what has not is `None`.
pub struct StepOutcomes {
    /// A page was opened.
    pub opened: Acted,
    /// The actions of a login.
    pub login: Vec<Result<(), String>>,
    /// The page that a selector is looked for on.
    pub elements: Option<Result<TargetPage, String>>,
    /// The first answer of the LLM to what the selector is.
    pub first: Option<Result<String, String>>,
    /// Whether an element matches it.
    pub first_matches: Option<bool>,
    /// The second answer.
    pub second: Option<Result<String, String>>,
    /// Whether an element matches it.
    pub second_matches: Option<bool>,
    /// What is said of a second answer that is no selector.
    pub unusable: Option<String>,
    /// The element was found.
    pub found: Acted,
    /// The element was clicked.
    pub clicked: Acted,
    /// The text was typed.
    pub entered: Acted,
    /// The last look at the page.
    pub poll: Option<Poll>,
    /// A picture of the page was saved.
    pub saved: Option<Saved>,
    /// The page that is judged.
    pub page: Option<PageContent>,
    /// A picture of it.
    pub image: Option<Result<String, String>>,
    /// What the LLM, the agent or the layout scan said.
    pub evaluation: AssertOutcomes,
    /// What the tool said.
    pub tool: Option<Result<McpToolResult, String>>,
}

/// 1 for what is missing, 0 for what is not.
#[verifier::opaque]
pub open spec fn gap<A>(x: Option<A>) -> nat {
    if x is None {
        1
    } else {
        0
    }
}

/// What `gap` says.
proof fn lemma_gap<A>(x: Option<A>)
    ensures
        gap(x) == if x is None {
            1nat
        } else {
            0nat
        },
{
    reveal(gap);
}

impl StepOutcomes {
    /// A login has no more outcomes than actions, and the text of the page
    /// that a selector is looked for on can be shown.
    pub open spec fn wf(&self) -> bool {
        &&& self.login@.len() <= steps::LOGIN_ACTIONS
        &&& self.elements matches Some(Ok(p)) ==> text::can_cut(
            p.content.body_text@,
            targeting::PROMPT_TEXT_LEN as nat,
        )
    }

    /// How many outcomes there can still be, looks at the page aside.
    pub open spec fn missing(&self) -> nat {
        (steps::LOGIN_ACTIONS - self.login@.len()) as nat + gap(self.opened) + gap(self.elements)
            + gap(self.first) + gap(self.first_matches) + gap(self.second) + gap(
            self.second_matches,
        ) + gap(self.unusable) + gap(self.found) + gap(self.clicked) + gap(self.entered) + gap(
            self.saved,
        ) + gap(self.page) + gap(self.image) + gap(self.evaluation.reply) + gap(
            self.evaluation.scan,
        ) + gap(self.tool)
    }

    /// Nothing has happened yet.
    pub open spec fn fresh(&self) -> bool {
        &&& self.login@.len() == 0
        &&& self.missing() == steps::LOGIN_ACTIONS + 16
        &&& self.poll is None
    }

    /// A step that has not begun.
    pub fn new() -> (r: Self)
        ensures
            r.wf(),
            r.fresh(),
    {
        proof {
            reveal(gap);
        }
        StepOutcomes {
            opened: None,
            login: Vec::new(),
            elements: None,
            first: None,
            first_matches: None,
            second: None,
            second_matches: None,
            unusable: None,
            found: None,
            clicked: None,
            entered: None,
            poll: None,
            saved: None,
            page: None,
            image: None,
            evaluation: AssertOutcomes { reply: None, scan: None },
            tool: None,
        }
    }
}

/// An optional text.
pub open spec fn text_of(t: Option<String>) -> Option<Seq<char>> {
    match t {
        Some(s) => Some(s@),
        None => None,
    }
}

/// Borrows an optional text.
fn borrowed(t: &Option<String>) -> (r: Option<&str>)
    ensures
        llm::option_view(r) == text_of(*t),
{
    match t {
        Some(s) => Some(s.as_str()),
        None => None,
    }
}

/// The endpoint that a step names for its LLM calls.
pub open spec fn own_endpoint(step: TestStep) -> Option<Seq<char>> {
    match step {
        TestStep::Click { endpoint, .. } => text_of(endpoint),
        TestStep::Type { endpoint, .. } => text_of(endpoint),
        TestStep::Wait { endpoint, .. } => text_of(endpoint),
        TestStep::Assert { endpoint, .. } => text_of(endpoint),
        _ => None,
    }
}

/// The endpoint of a step: the one that it names, or else that of its test.
pub open spec fn endpoint_of(step: TestStep, test: TestGroup) -> Option<Seq<char>> {
    match own_endpoint(step) {
        Some(name) => Some(name),
        None => text_of(test.endpoint),
    }
}

/// The endpoint of a step: the one that it names, or else that of its test.
pub fn step_endpoint<'a>(step: &'a TestStep, test: &'a TestGroup) -> (r: Option<&'a str>)
    ensures
        llm::option_view(r) == endpoint_of(*step, *test),
{
    let own: Option<&'a str> = match step {
        TestStep::Click { endpoint, .. } => borrowed(endpoint),
        TestStep::Type { endpoint, .. } => borrowed(endpoint),
        TestStep::Wait { endpoint, .. } => borrowed(endpoint),
        TestStep::Assert { endpoint, .. } => borrowed(endpoint),
        _ => None,
    };
    match own {
        Some(name) => Some(name),
        None => borrowed(&test.endpoint),
    }
}

/// A move of the browser as an action.
pub open spec fn browser_action(n: StepNext) -> StepAction {
    match n {
        StepNext::Done(x) => StepAction::Done(x),
        _ => StepAction::Browser(n),
    }
}

/// A move of an assertion as an action.
pub open spec fn assert_action(n: AssertNext) -> StepAction {
    match n {
        AssertNext::Done(x) => StepAction::Done(x),
        _ => StepAction::Assert(n),
    }
}

/// A move of the browser as an action.
fn from_browser(n: StepNext) -> (r: StepAction)
    ensures
        r == browser_action(n),
{
    match n {
        StepNext::Done(x) => StepAction::Done(x),
        _ => StepAction::Browser(n),
    }
}

/// A move of an assertion as an action.
fn from_assert(n: AssertNext) -> (r: StepAction)
    ensures
        r == assert_action(n),
{
    match n {
        AssertNext::Done(x) => StepAction::Done(x),
        _ => StepAction::Assert(n),
    }
}

/// What a search for a selector came to, once it is over.
pub open spec fn search_result(t: TargetNext, unusable: Option<String>) -> Option<
    Result<String, String>,
> {
    match t {
        TargetNext::Found(s) => Some(Ok(s)),
        TargetNext::Failed(m) => Some(Err(m)),
        TargetNext::Unusable { .. } => match unusable {
            Some(m) => Some(Err(m)),
            None => None,
        },
        _ => None,
    }
}

/// The next move of the search for the selector of a step.
pub open spec fn search_next(
    t: TargetNext,
    css: Option<Seq<char>>,
    target: Seq<char>,
    o: StepOutcomes,
) -> bool {
    targeting::target_next(
        t,
        css,
        target,
        o.elements,
        o.first,
        o.first_matches,
        o.second,
        o.second_matches,
    )
}

/// The next move of the search for the selector of a step, or what it came
/// to.
fn search(css: Option<&str>, target: &str, o: &StepOutcomes) -> (r: Result<
    Result<String, String>,
    TargetNext,
>)
    requires
        o.wf(),
    ensures
        match r {
            Ok(x) => exists|t: TargetNext| #[trigger]
                search_next(t, llm::option_view(css), target@, *o) && search_result(t, o.unusable)
                    == Some(x),
            Err(t) => search_next(t, llm::option_view(css), target@, *o) && search_result(
                t,
                o.unusable,
            ) is None,
        },
{
    let t = targeting::resolve_selector(
        css,
        target,
        &o.elements,
        &o.first,
        o.first_matches,
        &o.second,
        o.second_matches,
    );
    let ghost seen = t;
    assert(search_next(seen, llm::option_view(css), target@, *o));
    match t {
        TargetNext::Found(s) => Ok(Ok(s)),
        TargetNext::Failed(m) => Ok(Err(m)),
        TargetNext::Unusable { first, raw } => match &o.unusable {
            Some(m) => Ok(Err(m.clone())),
            None => Err(TargetNext::Unusable { first, raw }),
        },
        TargetNext::ReadPage => Err(TargetNext::ReadPage),
        TargetNext::Ask { system, user } => Err(TargetNext::Ask { system, user }),
        TargetNext::Check { script } => Err(TargetNext::Check { script }),
    }
}

/// The next action of a click.
pub open spec fn click_action(
    r: StepAction,
    css: Option<Seq<char>>,
    target: Seq<char>,
    idempotent: bool,
    o: StepOutcomes,
) -> bool {
    exists|t: TargetNext| #[trigger]
        search_next(t, css, target, o) && match search_result(t, o.unusable) {
            None => r == StepAction::Target(t),
            Some(x) => exists|n: StepNext| #[trigger]
                steps::click_next(n, target, idempotent, Some(x), o.found, o.clicked) && r
                    == browser_action(n),
        }
}

/// The next action of typing into an element.
pub open spec fn type_action(
    r: StepAction,
    css: Option<Seq<char>>,
    target: Seq<char>,
    typed: Seq<char>,
    idempotent: bool,
    o: StepOutcomes,
) -> bool {
    exists|t: TargetNext| #[trigger]
        search_next(t, css, target, o) && match search_result(t, o.unusable) {
            None => r == StepAction::Target(t),
            Some(x) => exists|n: StepNext| #[trigger]
                steps::type_next(
                    n,
                    target,
                    typed,
                    idempotent,
                    Some(x),
                    o.found,
                    o.clicked,
                    o.entered,
                ) && r == browser_action(n),
        }
}

/// The next action of a wait. Only a wait for neither an explicit selector
/// nor a text has its selector looked for.
pub open spec fn wait_action(
    r: StepAction,
    css: Option<Seq<char>>,
    wanted: Option<Seq<char>>,
    target: Seq<char>,
    timeout_ms: Option<u64>,
    idempotent: bool,
    o: StepOutcomes,
) -> bool {
    if css is Some || wanted is Some {
        exists|n: StepNext| #[trigger]
            steps::wait_next(
                n,
                target,
                css,
                wanted,
                timeout_ms,
                idempotent,
                None,
                o.found,
                o.poll,
            ) && r == browser_action(n)
    } else {
        exists|t: TargetNext| #[trigger]
            search_next(t, None, target, o) && match search_result(t, o.unusable) {
                None => r == StepAction::Target(t),
                Some(x) => exists|n: StepNext| #[trigger]
                    steps::wait_next(
                        n,
                        target,
                        None,
                        None,
                        timeout_ms,
                        idempotent,
                        Some(x),
                        o.found,
                        o.poll,
                    ) && r == browser_action(n),
            }
    }
}

/// An assertion step as it is evaluated: the step of a test with its
/// endpoint.
pub open spec fn is_assertion(a: AssertStep<'_>, step: TestStep, test: TestGroup) -> bool {
    &&& step matches TestStep::Assert {
        definition,
        preset,
        prompt,
        assert_text,
        screenshot,
        ..
    }
    &&& llm::option_view(a.definition) == text_of(definition)
    &&& llm::option_view(a.preset) == text_of(preset)
    &&& llm::option_view(a.prompt) == text_of(prompt)
    &&& llm::option_view(a.assert_text) == text_of(assert_text)
    &&& a.screenshot == screenshot
    &&& llm::option_view(a.endpoint) == endpoint_of(step, test)
}

/// The next action of an assertion.
pub open spec fn assertion_action(
    r: StepAction,
    runner: ScenarioRunner,
    test: TestGroup,
    step: TestStep,
    o: StepOutcomes,
) -> bool {
    exists|a: AssertStep<'_>, n: AssertNext|
        {
            &&& #[trigger] is_assertion(a, step, test)
            &&& #[trigger] assertions::assert_next(
                n,
                runner.endpoints,
                runner.definitions@,
                a,
                runner.config.screenshot_max_dimension,
                o.page,
                o.image,
                o.evaluation,
            )
            &&& r == assert_action(n)
        }
}

/// The next action of a step, for each kind of step.
pub open spec fn next_action(
    r: StepAction,
    runner: ScenarioRunner,
    test: TestGroup,
    step: TestStep,
    base_url: Seq<char>,
    o: StepOutcomes,
) -> bool {
    match step {
        TestStep::Navigate { url, .. } => exists|n: StepNext| #[trigger]
            steps::navigate_next(n, steps::resolved_url(url@, base_url), o.opened) && r
                == browser_action(n),
        TestStep::Login { url, email, password, .. } => exists|n: StepNext| #[trigger]
            steps::login_next(
                n,
                steps::resolved_url(llm::or_default(url, steps::LOGIN_URL@), base_url),
                email@,
                password@,
                o.login@,
            ) && r == browser_action(n),
        TestStep::Click { target, selector, idempotent, .. } => click_action(
            r,
            text_of(selector),
            target@,
            idempotent,
            o,
        ),
        TestStep::Type { target, text, selector, idempotent, .. } => type_action(
            r,
            text_of(selector),
            target@,
            text@,
            idempotent,
            o,
        ),
        TestStep::Wait { target, selector, text, timeout_ms, idempotent, .. } => wait_action(
            r,
            text_of(selector),
            text_of(text),
            target@,
            timeout_ms,
            idempotent,
            o,
        ),
        TestStep::Assert { .. } => assertion_action(r, runner, test, step, o),
        TestStep::Screenshot { path } => exists|n: StepNext| #[trigger]
            steps::screenshot_next(n, text_of(path), o.saved) && r == browser_action(n),
        TestStep::Agent { agent, task, definition } => exists|n: AssertNext| #[trigger]
            assertions::agent_next(
                n,
                runner.endpoints,
                runner.definitions@,
                agent@,
                task@,
                text_of(definition),
                o.evaluation.reply,
            ) && r == assert_action(n),
        TestStep::Mcp { server, tool, .. } => exists|n: AssertNext| #[trigger]
            assertions::mcp_next(n, runner.endpoints, server@, tool@, o.tool) && r
                == assert_action(n),
    }
}

/// An endpoint can be chosen for the picture of an assertion, where the step
/// wants one.
pub open spec fn can_capture(runner: ScenarioRunner, test: TestGroup, step: TestStep) -> bool {
    step matches TestStep::Assert { screenshot, .. } ==> screenshot ==> runner.endpoints.chosen(
        endpoint_of(step, test),
        TaskType::Assertion,
    ) is Some
}

/// The next action of a click.
fn click(css: Option<&str>, target: &str, idempotent: bool, o: &StepOutcomes) -> (r: StepAction)
    requires
        o.wf(),
    ensures
        click_action(r, llm::option_view(css), target@, idempotent, *o),
{
    match search(css, target, o) {
        Err(t) => StepAction::Target(t),
        Ok(x) => {
            let resolved = Some(x);
            let n = steps::run_click(target, idempotent, &resolved, &o.found, &o.clicked);
            from_browser(n)
        },
    }
}

/// The next action of typing into an element.
fn type_text(
    css: Option<&str>,
    target: &str,
    typed: &str,
    idempotent: bool,
    o: &StepOutcomes,
) -> (r: StepAction)
    requires
        o.wf(),
    ensures
        type_action(r, llm::option_view(css), target@, typed@, idempotent, *o),
{
    match search(css, target, o) {
        Err(t) => StepAction::Target(t),
        Ok(x) => {
            let resolved = Some(x);
            let n = steps::run_type(
                target,
                typed,
                idempotent,
                &resolved,
                &o.found,
                &o.clicked,
                &o.entered,
            );
            from_browser(n)
        },
    }
}

/// The next action of a wait.
fn wait(
    css: Option<&str>,
    wanted: Option<&str>,
    target: &str,
    timeout_ms: Option<u64>,
    idempotent: bool,
    o: &StepOutcomes,
) -> (r: StepAction)
    requires
        o.wf(),
    ensures
        wait_action(
            r,
            llm::option_view(css),
            llm::option_view(wanted),
            target@,
            timeout_ms,
            idempotent,
            *o,
        ),
{
    let mut resolved: Option<Result<String, String>> = None;
    if css.is_none() && wanted.is_none() {
        match search(None, target, o) {
            Err(t) => {
                return StepAction::Target(t);
            },
            Ok(x) => {
                resolved = Some(x);
            },
        }
    }
    let n = steps::run_wait(
        target,
        css,
        wanted,
        timeout_ms,
        idempotent,
        &resolved,
        &o.found,
        &o.poll,
    );
    from_browser(n)
}

impl ScenarioRunner {
    /// What a step of a test asks for next, given what has happened in it so
    /// far.
    pub fn run_step(
        &self,
        test: &TestGroup,
        step: &TestStep,
        base_url: &str,
        o: &StepOutcomes,
    ) -> (r: StepAction)
        requires
            o.wf(),
            can_capture(*self, *test, *step),
        ensures
            next_action(r, *self, *test, *step, base_url@, *o),
    {
        match step {
            TestStep::Navigate { url, .. } => {
                let full = steps::resolve_url(url.as_str(), base_url);
                from_browser(steps::run_navigate_step(full.as_str(), &o.opened))
            },
            TestStep::Login { url, email, password, .. } => {
                let page = llm::value_or(url, steps::LOGIN_URL);
                let full = steps::resolve_url(page.as_str(), base_url);
                from_browser(
                    steps::run_login(full.as_str(), email.as_str(), password.as_str(), &o.login),
                )
            },
            TestStep::Click { target, selector, idempotent, .. } => click(
                borrowed(selector),
                target.as_str(),
                *idempotent,
                o,
            ),
            TestStep::Type { target, text, selector, idempotent, .. } => type_text(
                borrowed(selector),
                target.as_str(),
                text.as_str(),
                *idempotent,
                o,
            ),
            TestStep::Wait { target, selector, text, timeout_ms, idempotent, .. } => wait(
                borrowed(selector),
                borrowed(text),
                target.as_str(),
                *timeout_ms,
                *idempotent,
                o,
            ),
            TestStep::Assert { definition, preset, prompt, assert_text, screenshot, .. } => {
                let a = AssertStep {
                    definition: borrowed(definition),
                    preset: borrowed(preset),
                    prompt: borrowed(prompt),
                    assert_text: borrowed(assert_text),
                    screenshot: *screenshot,
                    endpoint: step_endpoint(step, test),
                };
                assert(is_assertion(a, *step, *test));
                let n = assertions::run_assert(
                    &self.endpoints,
                    &self.definitions,
                    &a,
                    self.config.screenshot_max_dimension,
                    &o.page,
                    &o.image,
                    &o.evaluation,
                );
                from_assert(n)
            },
            TestStep::Screenshot { path } => from_browser(
                steps::run_screenshot(borrowed(path), &o.saved),
            ),
            TestStep::Agent { agent, task, definition } => from_assert(
                assertions::run_agent(
                    &self.endpoints,
                    &self.definitions,
                    agent.as_str(),
                    task.as_str(),
                    borrowed(definition),
                    &o.evaluation.reply,
                ),
            ),
            TestStep::Mcp { server, tool, .. } => from_assert(
                assertions::run_mcp(&self.endpoints, server.as_str(), tool.as_str(), &o.tool),
            ),
        }
    }
}

/// The event is an outcome of the action.
pub open spec fn answers(o: StepOutcomes, step: TestStep, action: StepAction, event: StepEvent) -> bool {
    match (action, event) {
        (StepAction::Browser(n), StepEvent::Acted(_)) => {
            &&& n is Navigate || n is Find || n is Click || n is Type
            &&& step is Login ==> o.login@.len() < steps::LOGIN_ACTIONS
        },
        (StepAction::Browser(n), StepEvent::Polled(_)) => n is Poll,
        (StepAction::Browser(n), StepEvent::Pictured(_)) => n is Save,
        (StepAction::Target(t), StepEvent::ElementsRead(_)) => t is ReadPage,
        (StepAction::Target(t), StepEvent::Replied(_)) => t is Ask,
        (StepAction::Target(t), StepEvent::Checked(_)) => t is Check,
        (StepAction::Target(t), StepEvent::Excerpted(_)) => t is Unusable,
        (StepAction::Assert(n), StepEvent::PageRead(_)) => n is ReadPage,
        (StepAction::Assert(n), StepEvent::Captured(_)) => n is Capture,
        (StepAction::Assert(n), StepEvent::Replied(_)) => n is Ask || n is CallAgent,
        (StepAction::Assert(n), StepEvent::Scanned(_)) => n is ScanLayout,
        (StepAction::Assert(n), StepEvent::ToolReplied(_)) => n is CallTool,
        _ => false,
    }
}

/// What an outcome of an action adds to what has happened. An answer of the
/// LLM to what the selector is comes first or second, and so does the look
/// whether an element matches it.
pub open spec fn added(
    o: StepOutcomes,
    step: TestStep,
    action: StepAction,
    event: StepEvent,
    after: StepOutcomes,
) -> bool {
    match event {
        StepEvent::Acted(x) => if step is Login {
            &&& after == (StepOutcomes { login: after.login, ..o })
            &&& after.login@ == o.login@.push(x)
        } else {
            match action {
                StepAction::Browser(StepNext::Navigate { .. }) => after == (StepOutcomes {
                    opened: Some(x),
                    ..o
                }),
                StepAction::Browser(StepNext::Find { .. }) => after == (StepOutcomes {
                    found: Some(x),
                    ..o
                }),
                StepAction::Browser(StepNext::Click { .. }) => after == (StepOutcomes {
                    clicked: Some(x),
                    ..o
                }),
                _ => after == (StepOutcomes { entered: Some(x), ..o }),
            }
        },
        StepEvent::Polled(x) => after == (StepOutcomes { poll: Some(x), ..o }),
        StepEvent::Pictured(x) => after == (StepOutcomes { saved: Some(x), ..o }),
        StepEvent::ElementsRead(x) => after == (StepOutcomes { elements: Some(x), ..o }),
        StepEvent::Checked(x) => if o.first_matches is None {
            after == (StepOutcomes { first_matches: Some(x), ..o })
        } else {
            after == (StepOutcomes { second_matches: Some(x), ..o })
        },
        StepEvent::Excerpted(x) => after == (StepOutcomes { unusable: Some(x), ..o }),
        StepEvent::PageRead(x) => after == (StepOutcomes { page: Some(x), ..o }),
        StepEvent::Captured(x) => after == (StepOutcomes { image: Some(x), ..o }),
        StepEvent::Replied(x) => if action is Assert {
            after == (StepOutcomes {
                evaluation: AssertOutcomes { reply: Some(x), ..o.evaluation },
                ..o
            })
        } else if o.first is None {
            after == (StepOutcomes { first: Some(x), ..o })
        } else {
            after == (StepOutcomes { second: Some(x), ..o })
        },
        StepEvent::Scanned(x) => after == (StepOutcomes {
            evaluation: AssertOutcomes { scan: Some(x), ..o.evaluation },
            ..o
        }),
        StepEvent::ToolReplied(x) => after == (StepOutcomes { tool: Some(x), ..o }),
    }
}

/// The text of a page that a selector is looked for on can be shown.
pub open spec fn showable(event: StepEvent) -> bool {
    event matches StepEvent::ElementsRead(Ok(p)) ==> text::can_cut(
        p.content.body_text@,
        targeting::PROMPT_TEXT_LEN as nat,
    )
}

impl StepOutcomes {
    /// Adds what came of an action. Whether the event is an outcome of the
    /// action; where it is not, nothing changes. The text of a page that a
    /// selector is looked for on is cut after
    /// [`targeting::PROMPT_TEXT_LEN`] bytes, which must be where a character
    /// ends.
    pub fn happened(&mut self, step: &TestStep, action: &StepAction, event: StepEvent) -> (r: bool)
        requires
            old(self).wf(),
            showable(event),
        ensures
            final(self).wf(),
            r == answers(*old(self), *step, *action, event),
            if r {
                added(*old(self), *step, *action, event, *final(self))
            } else {
                *final(self) == *old(self)
            },
    {
        match (action, event) {
            (StepAction::Browser(n), StepEvent::Acted(x)) => {
                let acts = matches!(n, StepNext::Navigate { .. } | StepNext::Find { .. }
                    | StepNext::Click { .. } | StepNext::Type { .. });
                if !acts {
                    return false;
                }
                if matches!(step, TestStep::Login { .. }) {
                    if self.login.len() >= steps::LOGIN_ACTIONS {
                        return false;
                    }
                    self.login.push(x);
                    return true;
                }
                match n {
                    StepNext::Navigate { .. } => self.opened = Some(x),
                    StepNext::Find { .. } => self.found = Some(x),
                    StepNext::Click { .. } => self.clicked = Some(x),
                    _ => self.entered = Some(x),
                }
                true
            },
            (StepAction::Browser(StepNext::Poll { .. }), StepEvent::Polled(x)) => {
                self.poll = Some(x);
                true
            },
            (StepAction::Browser(StepNext::Save { .. }), StepEvent::Pictured(x)) => {
                self.saved = Some(x);
                true
            },
            (StepAction::Target(TargetNext::ReadPage), StepEvent::ElementsRead(x)) => {
                self.elements = Some(x);
                true
            },
            (StepAction::Target(TargetNext::Ask { .. }), StepEvent::Replied(x)) => {
                if self.first.is_none() {
                    self.first = Some(x);
                } else {
                    self.second = Some(x);
                }
                true
            },
            (StepAction::Target(TargetNext::Check { .. }), StepEvent::Checked(x)) => {
                if self.first_matches.is_none() {
                    self.first_matches = Some(x);
                } else {
                    self.second_matches = Some(x);
                }
                true
            },
            (StepAction::Target(TargetNext::Unusable { .. }), StepEvent::Excerpted(x)) => {
                self.unusable = Some(x);
                true
            },
            (StepAction::Assert(AssertNext::ReadPage { .. }), StepEvent::PageRead(x)) => {
                self.page = Some(x);
                true
            },
            (StepAction::Assert(AssertNext::Capture { .. }), StepEvent::Captured(x)) => {
                self.image = Some(x);
                true
            },
            (StepAction::Assert(AssertNext::Ask { .. }), StepEvent::Replied(x)) => {
                self.evaluation.reply = Some(x);
                true
            },
            (StepAction::Assert(AssertNext::CallAgent { .. }), StepEvent::Replied(x)) => {
                self.evaluation.reply = Some(x);
                true
            },
            (StepAction::Assert(AssertNext::ScanLayout), StepEvent::Scanned(x)) => {
                self.evaluation.scan = Some(x);
                true
            },
            (StepAction::Assert(AssertNext::CallTool { .. }), StepEvent::ToolReplied(x)) => {
                self.tool = Some(x);
                true
            },
            _ => false,
        }
    }
}

/// What a call of an LLM endpoint that answered adds to its usage.
pub open spec fn answer_usage(endpoint: ResolvedEndpoint, response: LlmResponse) -> EndpointUsage {
    EndpointUsage {
        calls: 1,
        input_tokens: response.usage.prompt_tokens,
        output_tokens: response.usage.completion_tokens,
        cost: costs::llm_cost(
            endpoint,
            response.usage.prompt_tokens,
            response.usage.completion_tokens,
        ),
    }
}

/// What is reported of a call of an LLM endpoint.
pub open spec fn call_reported(
    r: TestEvent,
    at: (Seq<char>, u32),
    endpoint: ResolvedEndpoint,
    asked: (Seq<char>, TaskType),
    outcome: Result<LlmResponse, String>,
    duration: u64,
) -> bool {
    &&& r matches TestEvent::LlmCallFinished {
        test,
        index,
        endpoint: name,
        model,
        purpose,
        ok,
        duration_ms,
        input_tokens,
        output_tokens,
        cost,
        error,
    }
    &&& test@ == at.0 && index == at.1
    &&& name@ == endpoint.name@ && model@ == asked.0 && purpose@ == asked.1.key()
    &&& duration_ms == duration
    &&& match outcome {
        Ok(response) => {
            let used = answer_usage(endpoint, response);
            &&& ok && error is None
            &&& input_tokens == used.input_tokens
            &&& output_tokens == used.output_tokens
            &&& cost == used.cost
        },
        Err(e) => {
            &&& !ok && text_of(error) == Some(e@)
            &&& input_tokens == 0 && output_tokens == 0 && cost == 0
        },
    }
}

/// The endpoint whose price per call a step pays when it calls an agent or a
/// tool.
pub open spec fn flat_endpoint_of(step: TestStep, definitions: Seq<AssertDefinition>) -> Option<
    Seq<char>,
> {
    match step {
        TestStep::Agent { agent, .. } => Some(agent@),
        TestStep::Mcp { server, .. } => Some(server@),
        TestStep::Assert { definition: Some(name), .. } => match assertions::definition_of(
            definitions,
            name@,
        ) {
            Some(def) => text_of(def.agent),
            None => None,
        },
        _ => None,
    }
}

impl ScenarioRunner {
    /// Counts a call of an LLM endpoint, where it answered, and says what is
    /// reported of it.
    pub fn llm_call_finished(
        &mut self,
        at: (&str, u32),
        endpoint: &ResolvedEndpoint,
        asked: (&str, TaskType),
        outcome: &Result<LlmResponse, String>,
        duration_ms: u64,
    ) -> (r: TestEvent)
        requires
            old(self).usage.wf(),
            *outcome matches Ok(response) ==> {
                &&& costs::sum_calls(old(self).usage.current()) < u64::MAX
                &&& costs::sum_tokens(old(self).usage.current()) + response.usage.prompt_tokens
                    + response.usage.completion_tokens <= u64::MAX
            },
        ensures
            *final(self) == (ScenarioRunner { usage: final(self).usage, ..*old(self) }),
            final(self).usage.wf(),
            match *outcome {
                Ok(response) => {
                    &&& costs::counted(
                        old(self).usage.current(),
                        endpoint.name@,
                        answer_usage(*endpoint, response),
                        final(self).usage.current(),
                    )
                    &&& final(self).usage.total() == old(self).usage.total()
                    &&& final(self).usage.tests() == old(self).usage.tests()
                },
                Err(_) => final(self).usage == old(self).usage,
            },
            call_reported(
                r,
                (at.0@, at.1),
                *endpoint,
                (asked.0@, asked.1),
                *outcome,
                duration_ms,
            ),
    {
        let mut input_tokens: u64 = 0;
        let mut output_tokens: u64 = 0;
        let mut cost: u128 = 0;
        let mut error: Option<String> = None;
        match outcome {
            Ok(response) => {
                input_tokens = response.usage.prompt_tokens;
                output_tokens = response.usage.completion_tokens;
                cost = costs::calculate_llm_cost(endpoint, input_tokens, output_tokens);
                self.usage.record_llm_call(
                    endpoint.name.as_str(),
                    endpoint,
                    input_tokens,
                    output_tokens,
                );
            },
            Err(e) => {
                error = Some(e.clone());
            },
        }
        TestEvent::LlmCallFinished {
            test: at.0.to_owned(),
            index: at.1,
            endpoint: endpoint.name.clone(),
            model: asked.0.to_owned(),
            purpose: asked.1.as_str().to_owned(),
            ok: outcome.is_ok(),
            duration_ms,
            input_tokens,
            output_tokens,
            cost,
            error,
        }
    }

    /// The endpoint whose price per call a step pays when it calls an agent
    /// or a tool.
    pub fn flat_endpoint<'a>(&'a self, step: &'a TestStep) -> (r: Option<&'a str>)
        ensures
            llm::option_view(r) == flat_endpoint_of(*step, self.definitions@),
    {
        match step {
            TestStep::Agent { agent, .. } => Some(agent.as_str()),
            TestStep::Mcp { server, .. } => Some(server.as_str()),
            TestStep::Assert { definition: Some(name), .. } => match assertions::find_definition(
                &self.definitions,
                name.as_str(),
            ) {
                Some(def) => borrowed(&def.agent),
                None => None,
            },
            _ => None,
        }
    }

    /// Counts a call of an agent or a tool, whatever came of it, at the price
    /// per call of its endpoint.
    pub fn flat_call_finished(&mut self, name: &str)
        requires
            old(self).usage.wf(),
            costs::sum_calls(old(self).usage.current()) < u64::MAX,
        ensures
            *final(self) == (ScenarioRunner { usage: final(self).usage, ..*old(self) }),
            final(self).usage.wf(),
            match endpoints::index_named(old(self).endpoints.eps(), name@) {
                Some(i) => {
                    &&& costs::counted(
                        old(self).usage.current(),
                        name@,
                        (EndpointUsage {
                            calls: 1,
                            input_tokens: 0,
                            output_tokens: 0,
                            cost: old(self).endpoints.eps()[i].per_call_price,
                        }),
                        final(self).usage.current(),
                    )
                    &&& final(self).usage.total() == old(self).usage.total()
                    &&& final(self).usage.tests() == old(self).usage.tests()
                },
                None => final(self).usage == old(self).usage,
            },
    {
        if let Some(endpoint) = self.endpoints.get(name) {
            self.usage.record_flat_call(name, endpoint);
        }
    }

    /// What is reported of a test that is over: its steps and what it has
    /// used.
    pub fn test_finished(&self, name: &str, result: &TestRunResult, duration_ms: u64) -> (r:
        TestEvent)
        requires
            self.usage.wf(),
        ensures
            exists|used: UsageSnapshot| #[trigger]
                runner::is_usage(used, self.usage) && (r matches TestEvent::TestFinished {
                    test,
                    passed,
                    failed,
                    skipped,
                    duration_ms: ms,
                    cost,
                    tokens,
                    calls,
                } && test@ == name@ && passed == result.passed && failed == result.failed
                    && skipped == result.skipped && ms == duration_ms && cost == used.total_cost
                    && tokens == used.total_tokens && calls == used.total_calls),
    {
        let used = self.usage.current_test_snapshot();
        assert(runner::is_usage(used, self.usage));
        TestEvent::TestFinished {
            test: name.to_owned(),
            passed: result.passed,
            failed: result.failed,
            skipped: result.skipped,
            duration_ms,
            cost: used.total_cost,
            tokens: used.total_tokens,
            calls: used.total_calls,
        }
    }
}

/// The LLM has to be asked.
pub open spec fn asks_llm(r: StepAction) -> bool {
    ||| r matches StepAction::Target(TargetNext::Ask { .. })
    ||| r matches StepAction::Assert(AssertNext::Ask { .. })
}

/// The outcome that an action asks for is missing.
pub open spec fn asks_for_missing(r: StepAction, step: TestStep, o: StepOutcomes) -> bool {
    match r {
        StepAction::Browser(n) => if step is Login {
            o.login@.len() < steps::LOGIN_ACTIONS && !(n is Save)
        } else {
            match n {
                StepNext::Navigate { .. } => o.opened is None,
                StepNext::Find { .. } => o.found is None,
                StepNext::Click { .. } => o.clicked is None,
                StepNext::Type { .. } => o.entered is None,
                StepNext::Save { .. } => o.saved is None,
                _ => true,
            }
        },
        StepAction::Target(t) => match t {
            TargetNext::ReadPage => o.elements is None,
            TargetNext::Ask { .. } => o.first is None || o.second is None,
            TargetNext::Check { .. } => o.first_matches is None || o.second_matches is None,
            TargetNext::Unusable { .. } => o.unusable is None,
            _ => true,
        },
        StepAction::Assert(n) => match n {
            AssertNext::ReadPage { .. } => o.page is None,
            AssertNext::Capture { .. } => o.image is None,
            AssertNext::Ask { .. } => o.evaluation.reply is None,
            AssertNext::CallAgent { .. } => o.evaluation.reply is None,
            AssertNext::ScanLayout => o.evaluation.scan is None,
            AssertNext::CallTool { .. } => o.tool is None,
            AssertNext::Done(_) => true,
        },
        StepAction::Done(_) => true,
    }
}

/// A search for a selector asks for what is missing.
proof fn lemma_search_asks_for_missing(
    t: TargetNext,
    css: Option<Seq<char>>,
    target: Seq<char>,
    step: TestStep,
    o: StepOutcomes,
)
    requires
        search_next(t, css, target, o),
        search_result(t, o.unusable) is None,
    ensures
        asks_for_missing(StepAction::Target(t), step, o),
{
}

/// Clicks, text entries and waits ask for what is missing.
proof fn lemma_search_steps_ask_for_missing(
    r: StepAction,
    runner: ScenarioRunner,
    test: TestGroup,
    step: TestStep,
    base_url: Seq<char>,
    o: StepOutcomes,
)
    requires
        step is Click || step is Type || step is Wait,
        next_action(r, runner, test, step, base_url, o),
    ensures
        asks_for_missing(r, step, o),
{
    assert forall|t: TargetNext, css: Option<Seq<char>>, target: Seq<char>| #[trigger]
        search_next(t, css, target, o) && search_result(t, o.unusable) is None implies
        asks_for_missing(StepAction::Target(t), step, o) by {
        lemma_search_asks_for_missing(t, css, target, step, o);
    }
}

/// Assertions ask for what is missing.
proof fn lemma_assertions_ask_for_missing(
    r: StepAction,
    runner: ScenarioRunner,
    test: TestGroup,
    step: TestStep,
    o: StepOutcomes,
)
    requires
        assertion_action(r, runner, test, step, o),
        step is Assert,
    ensures
        asks_for_missing(r, step, o),
{
}

/// The outcome of an action that asks for what is missing leaves less to
/// miss.
proof fn lemma_less_is_missing(
    r: StepAction,
    step: TestStep,
    o: StepOutcomes,
    event: StepEvent,
    after: StepOutcomes,
)
    requires
        o.wf(),
        asks_for_missing(r, step, o),
        !(r matches StepAction::Browser(StepNext::Poll { .. })),
        showable(event),
        answers(o, step, r, event),
        added(o, step, r, event, after),
    ensures
        after.wf(),
        after.missing() < o.missing(),
{
    match event {
        StepEvent::Acted(_) => {
            if step is Login {
                assert(after.login@.len() == o.login@.len() + 1);
            } else {
                lemma_gap(o.opened);
                lemma_gap(after.opened);
                lemma_gap(o.found);
                lemma_gap(after.found);
                lemma_gap(o.clicked);
                lemma_gap(after.clicked);
                lemma_gap(o.entered);
                lemma_gap(after.entered);
            }
        },
        StepEvent::Polled(_) => {},
        StepEvent::Pictured(_) => {
            lemma_gap(o.saved);
            lemma_gap(after.saved);
        },
        StepEvent::ElementsRead(_) => {
            lemma_gap(o.elements);
            lemma_gap(after.elements);
        },
        StepEvent::Checked(_) => {
            lemma_gap(o.first_matches);
            lemma_gap(after.first_matches);
            lemma_gap(o.second_matches);
            lemma_gap(after.second_matches);
        },
        StepEvent::Excerpted(_) => {
            lemma_gap(o.unusable);
            lemma_gap(after.unusable);
        },
        StepEvent::PageRead(_) => {
            lemma_gap(o.page);
            lemma_gap(after.page);
        },
        StepEvent::Captured(_) => {
            lemma_gap(o.image);
            lemma_gap(after.image);
        },
        StepEvent::Replied(_) => {
            lemma_gap(o.first);
            lemma_gap(after.first);
            lemma_gap(o.second);
            lemma_gap(after.second);
            lemma_gap(o.evaluation.reply);
            lemma_gap(after.evaluation.reply);
        },
        StepEvent::Scanned(_) => {
            lemma_gap(o.evaluation.scan);
            lemma_gap(after.evaluation.scan);
        },
        StepEvent::ToolReplied(_) => {
            lemma_gap(o.tool);
            lemma_gap(after.tool);
        },
    }
}

/// Only so many outcomes can be missing.
proof fn lemma_missing_is_bounded(o: StepOutcomes)
    requires
        o.wf(),
    ensures
        o.missing() <= steps::LOGIN_ACTIONS + 16,
{
    lemma_gap(o.opened);
    lemma_gap(o.elements);
    lemma_gap(o.first);
    lemma_gap(o.first_matches);
    lemma_gap(o.second);
    lemma_gap(o.second_matches);
    lemma_gap(o.unusable);
    lemma_gap(o.found);
    lemma_gap(o.clicked);
    lemma_gap(o.entered);
    lemma_gap(o.saved);
    lemma_gap(o.page);
    lemma_gap(o.image);
    lemma_gap(o.evaluation.reply);
    lemma_gap(o.evaluation.scan);
    lemma_gap(o.tool);
}

/// Every step ends: each action that is not a look at the page for a text has
/// an outcome that was missing before, and only so many can be missing. The
/// looks at the page end with the time limit of the wait.
pub proof fn law_steps_make_progress(
    r: StepAction,
    runner: ScenarioRunner,
    test: TestGroup,
    step: TestStep,
    base_url: Seq<char>,
    o: StepOutcomes,
    event: StepEvent,
    after: StepOutcomes,
)
    requires
        o.wf(),
        next_action(r, runner, test, step, base_url, o),
        !(r matches StepAction::Browser(StepNext::Poll { .. })),
        showable(event),
        answers(o, step, r, event),
        added(o, step, r, event, after),
    ensures
        after.wf(),
        after.missing() < o.missing(),
        o.missing() <= steps::LOGIN_ACTIONS + 16,
{
    match step {
        TestStep::Click { .. } | TestStep::Type { .. } | TestStep::Wait { .. } => {
            lemma_search_steps_ask_for_missing(r, runner, test, step, base_url, o);
        },
        TestStep::Assert { .. } => {
            lemma_assertions_ask_for_missing(r, runner, test, step, o);
        },
        _ => {
            assert(asks_for_missing(r, step, o));
        },
    }
    lemma_less_is_missing(r, step, o, event, after);
    lemma_missing_is_bounded(o);
}

/// No LLM is asked by a click, a text entry or a wait with an explicit
/// selector, by a wait for a text, or by a step that names what it does.
pub proof fn law_explicit_steps_are_free(
    r: StepAction,
    runner: ScenarioRunner,
    test: TestGroup,
    step: TestStep,
    base_url: Seq<char>,
    o: StepOutcomes,
)
    requires
        next_action(r, runner, test, step, base_url, o),
        match step {
            TestStep::Click { selector, .. } => selector is Some,
            TestStep::Type { selector, .. } => selector is Some,
            TestStep::Wait { selector, text, .. } => selector is Some || text is Some,
            TestStep::Assert { .. } => false,
            _ => true,
        },
    ensures
        !asks_llm(r),
{
}

/// A selector is the explicit one of a step, or an answer of the LLM that the
/// page has confirmed.
pub open spec fn confirmed(selector: Seq<char>, css: Option<Seq<char>>, o: StepOutcomes) -> bool {
    ||| css == Some(selector)
    ||| o.first matches Some(Ok(answer)) && !targeting::no_selector(answer@)
        && targeting::selector_defect(answer@) is None && selector == selectors::sanitized(answer@)
        && o.first_matches == Some(true)
    ||| o.second matches Some(Ok(answer)) && !targeting::no_selector(answer@) && selector
        == selectors::sanitized(answer@) && o.second_matches == Some(true)
}

/// What a search found is confirmed.
proof fn lemma_found_is_confirmed(
    t: TargetNext,
    css: Option<Seq<char>>,
    target: Seq<char>,
    o: StepOutcomes,
)
    requires
        search_next(t, css, target, o),
    ensures
        t matches TargetNext::Found(s) ==> confirmed(s@, css, o),
{
}

/// A click or a text entry touches no element but that of its explicit
/// selector or of an answer of the LLM that the page has confirmed.
pub proof fn law_only_confirmed_elements_are_touched(
    r: StepAction,
    runner: ScenarioRunner,
    test: TestGroup,
    step: TestStep,
    base_url: Seq<char>,
    o: StepOutcomes,
)
    requires
        next_action(r, runner, test, step, base_url, o),
        step is Click || step is Type,
    ensures
        ({
            let css = match step {
                TestStep::Click { selector, .. } => text_of(selector),
                TestStep::Type { selector, .. } => text_of(selector),
                _ => None,
            };
            &&& r matches StepAction::Browser(StepNext::Click { selector }) ==> confirmed(
                selector@,
                css,
                o,
            )
            &&& r matches StepAction::Browser(StepNext::Type { selector, .. }) ==> confirmed(
                selector@,
                css,
                o,
            )
        }),
{
    assert forall|t: TargetNext, css: Option<Seq<char>>, target: Seq<char>| #[trigger]
        search_next(t, css, target, o) && t is Found implies confirmed(t->Found_0@, css, o) by {
        lemma_found_is_confirmed(t, css, target, o);
    }
}

/// The endpoint that a step names wins over that of its test, which counts
/// where the step names none.
pub proof fn law_step_endpoint_wins(step: TestStep, test: TestGroup)
    ensures
        step matches TestStep::Click { endpoint: Some(e), .. } ==> endpoint_of(step, test) == Some(
            e@,
        ),
        step matches TestStep::Type { endpoint: Some(e), .. } ==> endpoint_of(step, test) == Some(
            e@,
        ),
        step matches TestStep::Wait { endpoint: Some(e), .. } ==> endpoint_of(step, test) == Some(
            e@,
        ),
        step matches TestStep::Assert { endpoint: Some(e), .. } ==> endpoint_of(step, test) == Some(
            e@,
        ),
        (step matches TestStep::Click { endpoint: None, .. }) || (step matches TestStep::Type {
            endpoint: None,
            ..
        }) || (step matches TestStep::Wait { endpoint: None, .. })
            || (step matches TestStep::Assert { endpoint: None, .. }) || step is Navigate
            || step is Login || step is Screenshot || step is Agent || step is Mcp ==> match test.endpoint {
            Some(e) => endpoint_of(step, test) == Some(e@),
            None => endpoint_of(step, test) is None,
        },
{
}

/// What a step does first: it opens its page, looks for its element, reads the
/// page, takes the picture or calls the agent or tool that it names.
pub proof fn law_steps_begin_with_their_own_action(
    r: StepAction,
    runner: ScenarioRunner,
    test: TestGroup,
    step: TestStep,
    base_url: Seq<char>,
    o: StepOutcomes,
)
    requires
        next_action(r, runner, test, step, base_url, o),
        o.fresh(),
    ensures
        step matches TestStep::Navigate { url, .. } ==> (r matches StepAction::Browser(
            StepNext::Navigate { url: u },
        ) && u@ == steps::resolved_url(url@, base_url)),
        step is Login ==> (r matches StepAction::Browser(StepNext::Navigate { .. })),
        step matches TestStep::Click { selector: Some(s), .. } ==> (r matches StepAction::Browser(
            StepNext::Find { selector: q, .. },
        ) && q@ == s@),
        step matches TestStep::Type { selector: Some(s), .. } ==> (r matches StepAction::Browser(
            StepNext::Find { selector: q, .. },
        ) && q@ == s@),
        step matches TestStep::Click { selector: None, .. } ==> (r matches StepAction::Target(
            TargetNext::ReadPage,
        )),
        step matches TestStep::Type { selector: None, .. } ==> (r matches StepAction::Target(
            TargetNext::ReadPage,
        )),
        step matches TestStep::Wait { text: Some(_), .. } ==> (r matches StepAction::Browser(
            StepNext::Poll { .. },
        )),
        step matches TestStep::Wait { text: None, selector: Some(s), .. } ==> (
        r matches StepAction::Browser(StepNext::Find { selector: q, .. }) && q@ == s@),
        step matches TestStep::Wait { text: None, selector: None, .. } ==> (
        r matches StepAction::Target(TargetNext::ReadPage)),
        step is Assert ==> (r matches StepAction::Assert(AssertNext::ReadPage { .. })),
        step is Screenshot ==> (r matches StepAction::Browser(StepNext::Save { .. })),
{
    lemma_fresh_search(o, None, Seq::empty());
    match step {
        TestStep::Click { target, selector, .. } => {
            lemma_fresh_search(o, text_of(selector), target@);
        },
        TestStep::Type { target, selector, .. } => {
            lemma_fresh_search(o, text_of(selector), target@);
        },
        TestStep::Wait { target, selector, .. } => {
            lemma_fresh_search(o, text_of(selector), target@);
        },
        _ => {},
    }
}

/// A search begins with the selector that is given or with the page.
proof fn lemma_fresh_search(o: StepOutcomes, css: Option<Seq<char>>, target: Seq<char>)
    requires
        o.fresh(),
    ensures
        o.elements is None,
        o.found is None,
        o.poll is None,
        o.opened is None,
        o.saved is None,
        o.page is None,
        forall|t: TargetNext| #[trigger]
            search_next(t, css, target, o) ==> match css {
                Some(s) => t matches TargetNext::Found(f) && f@ == s,
                None => t is ReadPage,
            },
{
    reveal(gap);
}

/// A finished call is reported with what the reply used, a failed one with
/// its error and no usage; both with the name of their endpoint, the model and
/// the purpose.
pub proof fn law_calls_are_reported_as_they_ended(
    r: TestEvent,
    at: (Seq<char>, u32),
    endpoint: ResolvedEndpoint,
    asked: (Seq<char>, TaskType),
    outcome: Result<LlmResponse, String>,
    duration: u64,
)
    requires
        call_reported(r, at, endpoint, asked, outcome, duration),
    ensures
        r matches TestEvent::LlmCallFinished {
            endpoint: name,
            ok,
            input_tokens,
            output_tokens,
            error,
            duration_ms,
            ..
        } && {
            &&& name@ == endpoint.name@
            &&& duration_ms == duration
            &&& ok <==> outcome is Ok
            &&& error is Some <==> outcome is Err
            &&& outcome matches Ok(reply) ==> input_tokens == reply.usage.prompt_tokens
                && output_tokens == reply.usage.completion_tokens
            &&& outcome matches Err(e) ==> error->0@ == e@ && input_tokens == 0 && output_tokens
                == 0
        },
{
}

/// An answered question counts as one call with the tokens of the reply.
pub proof fn law_answers_count_as_one_call(endpoint: ResolvedEndpoint, response: LlmResponse)
    ensures
        answer_usage(endpoint, response).calls == 1,
        answer_usage(endpoint, response).input_tokens == response.usage.prompt_tokens,
        answer_usage(endpoint, response).output_tokens == response.usage.completion_tokens,
{
}

/// What happened is kept where it belongs, and nothing that was known is
/// lost: an answer to the first question stays when the second is answered.
pub proof fn law_answers_are_kept(
    o: StepOutcomes,
    step: TestStep,
    action: StepAction,
    event: StepEvent,
    after: StepOutcomes,
)
    requires
        added(o, step, action, event, after),
        answers(o, step, action, event),
    ensures
        o.opened is Some && !(event is Acted) ==> after.opened == o.opened,
        o.first is Some ==> after.first == o.first,
        o.first_matches is Some ==> after.first_matches == o.first_matches,
        after.login@.len() >= o.login@.len(),
        forall|k: int| 0 <= k < o.login@.len() ==> after.login@[k] == #[trigger] o.login@[k],
        (event matches StepEvent::Checked(x) && o.first_matches is None) ==> after.first_matches
            == Some(event->Checked_0),
        (event is Checked && o.first_matches is Some) ==> after.second_matches == Some(
            event->Checked_0,
        ),
        (event is Replied && action is Target && o.first is None) ==> after.first == Some(
            event->Replied_0,
        ),
        (event is Replied && action is Target && o.first is Some) ==> after.second == Some(
            event->Replied_0,
        ),
        (event is Replied && action is Assert) ==> after.evaluation.reply == Some(event->Replied_0),
        event matches StepEvent::Polled(x) ==> after.poll == Some(x),
        event matches StepEvent::Pictured(x) ==> after.saved == Some(x),
        event matches StepEvent::ElementsRead(x) ==> after.elements == Some(x),
        event matches StepEvent::PageRead(x) ==> after.page == Some(x),
        event matches StepEvent::Captured(x) ==> after.image == Some(x),
        event matches StepEvent::Scanned(x) ==> after.evaluation.scan == Some(x),
        event matches StepEvent::ToolReplied(x) ==> after.tool == Some(x),
        event matches StepEvent::Acted(x) ==> {
            &&& step is Login ==> after.login@ == o.login@.push(x)
            &&& !(step is Login) && (action->Browser_0 is Navigate) ==> after.opened == Some(x)
            &&& !(step is Login) && (action->Browser_0 is Find) ==> after.found == Some(x)
            &&& !(step is Login) && (action->Browser_0 is Click) ==> after.clicked == Some(x)
            &&& !(step is Login) && (action->Browser_0 is Type) ==> after.entered == Some(x)
        },
{
}

/// A call is reported under the test and step that made it, with the model
/// that was asked and what it was asked for.
pub proof fn law_calls_are_reported_under_their_step(
    r: TestEvent,
    at: (Seq<char>, u32),
    endpoint: ResolvedEndpoint,
    asked: (Seq<char>, TaskType),
    outcome: Result<LlmResponse, String>,
    duration: u64,
)
    requires
        call_reported(r, at, endpoint, asked, outcome, duration),
    ensures
        r matches TestEvent::LlmCallFinished { test, index, model, purpose, cost, .. } && {
            &&& test@ == at.0
            &&& index == at.1
            &&& model@ == asked.0
            &&& asked.1 == TaskType::Targeting ==> purpose@ == "targeting"@
            &&& asked.1 == TaskType::Assertion ==> purpose@ == "assertion"@
            &&& outcome is Err ==> cost == 0
            &&& outcome matches Ok(reply) ==> cost == costs::llm_cost(
                endpoint,
                reply.usage.prompt_tokens,
                reply.usage.completion_tokens,
            )
        },
{
}

/// An event answers the action that asked for it, and no other.
pub proof fn law_events_answer_what_was_asked(
    o: StepOutcomes,
    step: TestStep,
    action: StepAction,
    event: StepEvent,
)
    ensures
        answers(o, step, action, event) ==> match event {
            StepEvent::Acted(_) => action matches StepAction::Browser(n) && !(n is Done) && !(n
                is Resolve) && !(n is Poll) && !(n is Save),
            StepEvent::Polled(_) => action matches StepAction::Browser(StepNext::Poll { .. }),
            StepEvent::Pictured(_) => action matches StepAction::Browser(StepNext::Save { .. }),
            StepEvent::ElementsRead(_) => action matches StepAction::Target(TargetNext::ReadPage),
            StepEvent::Checked(_) => action matches StepAction::Target(TargetNext::Check { .. }),
            StepEvent::Excerpted(_) => action matches StepAction::Target(
                TargetNext::Unusable { .. },
            ),
            StepEvent::PageRead(_) => action matches StepAction::Assert(
                AssertNext::ReadPage { .. },
            ),
            StepEvent::Captured(_) => action matches StepAction::Assert(AssertNext::Capture { .. }),
            StepEvent::Scanned(_) => action matches StepAction::Assert(AssertNext::ScanLayout),
            StepEvent::ToolReplied(_) => action matches StepAction::Assert(
                AssertNext::CallTool { .. },
            ),
            StepEvent::Replied(_) => asks_llm(action) || (action matches StepAction::Assert(
                AssertNext::CallAgent { .. },
            )),
        },
        event is Replied && asks_llm(action) ==> answers(o, step, action, event),
        event is Checked && (action matches StepAction::Target(TargetNext::Check { .. }))
            ==> answers(o, step, action, event),
        event is Polled && (action matches StepAction::Browser(StepNext::Poll { .. })) ==> answers(
            o,
            step,
            action,
            event,
        ),
        event is Acted && !(step is Login) && (action matches StepAction::Browser(
            StepNext::Click { .. },
        )) ==> answers(o, step, action, event),
{
}

/// An assert step is evaluated as it is written: its own prompt is put to the
/// LLM, with the page that was read.
pub proof fn law_assert_steps_are_run_as_written(
    r: StepAction,
    runner: ScenarioRunner,
    test: TestGroup,
    step: TestStep,
    o: StepOutcomes,
)
    requires
        assertion_action(r, runner, test, step, o),
        o.page is Some,
        o.evaluation.reply is None,
        o.evaluation.scan is None,
    ensures
        step matches TestStep::Assert {
            definition: None,
            preset: None,
            prompt: Some(p),
            screenshot: false,
            ..
        } ==> (r matches StepAction::Assert(AssertNext::Ask { user, .. }) && text::has_text(
            user@,
            p@,
        ) && text::has_text(user@, o.page->0.body_text@)),
        step matches TestStep::Assert {
            definition: None,
            preset: None,
            prompt: None,
            screenshot: false,
            ..
        } ==> (r matches StepAction::Done(x) && x.status is Skipped),
        (step matches TestStep::Assert { definition: None, preset: Some(p), screenshot: false, .. }
            && p@ == "layout_no_issues"@) ==> (r matches StepAction::Assert(
            AssertNext::ScanLayout,
        )),
{
    if let Some(page) = o.page {
        if let TestStep::Assert { prompt: Some(p), screenshot, .. } = step {
            assertions::law_custom_prompts_show_the_page(p@, page, screenshot);
        }
    }
}

} // verus!
