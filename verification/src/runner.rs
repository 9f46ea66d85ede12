//! The scenario runner: what a run is configured with, how each test is
//! prepared, and what its steps add up to.
//!
//! The caller drives the browser and the LLM. It asks the runner how a test
//! begins, performs each step (see [`crate::steps`], [`crate::targeting`] and
//! [`crate::assertions`]), and hands the results back.
use vstd::prelude::*;
use vstd::string::StringExecFns;
use crate::budgets;
use crate::budgets::{BudgetStatus, BudgetTracker};
use crate::costs;
use crate::costs::{LlmResponse, UsageSnapshot, UsageTracker};
use crate::diagnostics;
use crate::diagnostics::PageState;
use crate::endpoints::{EndpointRegistry, ResolvedEndpoint};
use crate::json;
use crate::llm;
use crate::llm::{EnvSettings, LlmConfig};
use crate::named;
use crate::scenario::{
    AssertDefinition, BudgetDef, BudgetEnforcement, ScenarioConfig, TestGroup, TestStep,
};
use crate::steps;
use crate::text;

pub use crate::events::StepStatus;
pub use crate::steps::{resolve_url, StepResult};

verus! {

/// How long the CDP connection stays open after the browser goes quiet, in
/// seconds: a run must own its connection for its full duration.
pub const BROWSER_IDLE_TIMEOUT_SECS: u64 = 21600;

/// Milliseconds after the page that a test starts on was opened.
pub const AUTO_NAVIGATE_WAIT_MS: u64 = 4000;

/// What a scenario is run with.
pub struct ScenarioRunner {
    /// Effective configuration.
    pub config: ScenarioConfig,
    /// Assertion definitions.
    pub definitions: Vec<AssertDefinition>,
    /// The default LLM.
    pub llm: LlmConfig,
    /// HTTP / browser action timeout in seconds.
    pub timeout_secs: u64,
    /// Browser viewport width.
    pub viewport_width: u32,
    /// Browser viewport height.
    pub viewport_height: u32,
    /// The endpoints.
    pub endpoints: EndpointRegistry,
    /// Usage so far.
    pub usage: UsageTracker,
    /// The budgets.
    pub budgets: BudgetTracker,
    /// Directory for failure artifacts.
    pub artifacts_dir: String,
}

/// The LLM that a configuration describes; what it does not set comes from
/// the environment.
pub open spec fn is_scenario_llm(llm: LlmConfig, config: ScenarioConfig, env: EnvSettings) -> bool {
    &&& llm.url@ == llm::or_default(config.llm_url, llm::llm_url_of(env))
    &&& llm.model@ == llm::or_default(config.llm_model, llm::or_default(env.llm_model, "deepseek"@))
    &&& llm.api_key == if config.llm_api_key is Some {
        config.llm_api_key
    } else {
        env.llm_api_key
    }
    &&& if config.llm_headers@.len() == 0 {
        &&& named::distinct(llm.headers@)
        &&& llm::texts_by_name(llm.headers@) == match env.llm_headers {
            Some(raw) => llm::headers_in(raw@),
            None => Map::empty(),
        }
    } else {
        llm.headers@ == config.llm_headers@
    }
    &&& llm.timeout_secs == seconds_or_default(config.timeout_secs)
    &&& json::json_of(llm.temperature) == json::json_of(config.temperature)
    &&& llm.thinking == config.thinking
    &&& json::entries_of(llm.model_params@) == json::entries_of(config.model_params@)
    &&& llm.max_attempts == llm::attempts_of(env.llm_call_attempts)
    &&& llm.provider == crate::scenario::Provider::Openai
    &&& llm.deployment is None
    &&& llm.api_version is None
    &&& llm.auth.is_default()
    &&& llm.header_commands@.len() == 0
    &&& llm.aws.is_default()
}

/// The timeout, one minute by default.
pub open spec fn seconds_or_default(timeout_secs: Option<u64>) -> u64 {
    match timeout_secs {
        Some(s) => s,
        None => 60,
    }
}

/// The LLM that a configuration describes.
fn scenario_llm(config: &ScenarioConfig, env: &EnvSettings) -> (r: LlmConfig)
    ensures
        is_scenario_llm(r, *config, *env),
{
    let plain = LlmConfig::from_env(env);
    let headers = if config.llm_headers.len() == 0 {
        plain.headers
    } else {
        named::copy_named(&config.llm_headers)
    };
    let api_key = match &config.llm_api_key {
        Some(k) => Some(k.clone()),
        None => plain.api_key,
    };
    let mut model_params: Vec<(String, serde_json::Value)> = Vec::new();
    llm::append_entries(&mut model_params, &config.model_params);
    assert(json::entries_of(model_params@) =~= json::entries_of(config.model_params@));
    let timeout_secs: u64 = match config.timeout_secs {
        Some(s) => s,
        None => 60,
    };
    LlmConfig {
        url: llm::value_or(&config.llm_url, plain.url.as_str()),
        model: llm::value_or(&config.llm_model, plain.model.as_str()),
        api_key,
        headers,
        timeout_secs,
        temperature: config.temperature.clone(),
        thinking: config.thinking,
        model_params,
        max_attempts: plain.max_attempts,
        provider: plain.provider,
        deployment: plain.deployment,
        api_version: plain.api_version,
        auth: plain.auth,
        header_commands: plain.header_commands,
        aws: plain.aws,
    }
}

/// How a test begins.
pub struct TestPlan {
    /// Base URL for relative navigation.
    pub base_url: String,
    /// Viewport of the test: width and height.
    pub viewport: (u32, u32),
    /// Whether the browser has to be switched to that viewport.
    pub switch_viewport: bool,
    /// The page to open first.
    pub open: Option<String>,
}

/// The first of two settings that is there, or a default.
pub open spec fn first_of(own: Option<String>, shared: Option<String>, default: Seq<char>) -> Seq<char> {
    llm::or_default(own, llm::or_default(shared, default))
}

/// The configuration of an endpoint, completed by the default LLM.
pub open spec fn is_endpoint_llm(r: LlmConfig, endpoint: ResolvedEndpoint, fallback: LlmConfig) -> bool {
    &&& r.url@ == if endpoint.url@.len() == 0 {
        fallback.url@
    } else {
        endpoint.url@
    }
    &&& r.model@ == llm::or_default(endpoint.model, fallback.model@)
    &&& r.api_key == if endpoint.api_key is Some {
        endpoint.api_key
    } else {
        fallback.api_key
    }
    &&& r.headers@ == if endpoint.headers@.len() == 0 {
        fallback.headers@
    } else {
        endpoint.headers@
    }
    &&& r.timeout_secs == fallback.timeout_secs
    &&& json::json_of(r.temperature) == json::json_of(fallback.temperature)
    &&& r.thinking == fallback.thinking
    &&& json::entries_of(r.model_params@) == json::entries_of(fallback.model_params@)
    &&& r.max_attempts == endpoint.max_attempts
    &&& r.provider == endpoint.provider
    &&& r.deployment == endpoint.deployment
    &&& r.api_version == endpoint.api_version
    &&& r.auth == endpoint.auth
    &&& r.header_commands@ == endpoint.header_commands@
    &&& r.aws == endpoint.aws
}

/// An option, or else a default.
fn number_or(value: Option<u32>, default: u32) -> (r: u32)
    ensures
        r == match value {
            Some(n) => n,
            None => default,
        },
{
    match value {
        Some(n) => n,
        None => default,
    }
}

impl ScenarioRunner {
    /// Creates a new runner with the given scenario configuration and
    /// assertion definitions.
    pub fn new(config: ScenarioConfig, definitions: Vec<AssertDefinition>, env: &EnvSettings) -> (r:
        Self)
        ensures
            r.config == config,
            r.definitions == definitions,
            is_scenario_llm(r.llm, config, *env),
            r.timeout_secs == seconds_or_default(config.timeout_secs),
            r.viewport_width == match config.viewport_width {
                Some(n) => n,
                None => 1280,
            },
            r.viewport_height == match config.viewport_height {
                Some(n) => n,
                None => 720,
            },
            r.endpoints.built_from(config.endpoints@, Some(r.llm), *env),
            r.usage.wf(),
            r.usage.current().len() == 0,
            r.usage.tests().len() == 0,
            r.budgets.global == match config.budgets.global {
                Some(def) => Some(budgets::resolved(def)),
                None => None,
            },
            r.budgets.per_test_default == match config.budgets.per_test_default {
                Some(def) => Some(budgets::resolved(def)),
                None => None,
            },
            r.artifacts_dir@ == llm::or_default(config.artifacts_dir, "artifacts"@),
    {
        let llm = scenario_llm(&config, env);
        let endpoints = EndpointRegistry::from_config(&config.endpoints, Some(&llm), env);
        let budgets = BudgetTracker::from_config(&config.budgets);
        let artifacts_dir = llm::value_or(&config.artifacts_dir, "artifacts");
        let timeout_secs: u64 = llm.timeout_secs;
        let viewport_width: u32 = number_or(config.viewport_width, 1280);
        let viewport_height: u32 = number_or(config.viewport_height, 720);
        ScenarioRunner {
            config,
            definitions,
            llm,
            timeout_secs,
            viewport_width,
            viewport_height,
            endpoints,
            usage: UsageTracker::new(),
            budgets,
            artifacts_dir,
        }
    }

    /// The usage of the run, for reporting.
    pub fn usage_tracker(&self) -> (r: &UsageTracker)
        ensures
            *r == self.usage,
    {
        &self.usage
    }

    /// The budgets of the run.
    pub fn budget_tracker(&self) -> (r: &BudgetTracker)
        ensures
            *r == self.budgets,
    {
        &self.budgets
    }

    /// Whether the browser has no window.
    pub fn headless(&self) -> (r: bool)
        ensures
            r == match self.config.browser_headless {
                Some(h) => h,
                None => true,
            },
    {
        match self.config.browser_headless {
            Some(h) => h,
            None => true,
        }
    }

    /// How a test begins. `applied` is the viewport that the browser has.
    pub fn plan_test(&self, test: &TestGroup, applied: (u32, u32), env: &EnvSettings) -> (r: TestPlan)
        ensures
            self.plans(*test, applied, *env, r),
    {
        let shared_base = match &self.config.base_url {
            Some(b) => b.clone(),
            None => llm::base_url(env),
        };
        let base_url = llm::value_or(&test.base_url, shared_base.as_str());
        let shared_start = llm::value_or(&self.config.start_url, "/dashboard");
        let start_url = llm::value_or(&test.start_url, shared_start.as_str());
        let navigate = match test.auto_navigate {
            Some(a) => a,
            None => self.config.auto_navigate,
        };
        let width: u32 = number_or(test.viewport_width, self.viewport_width);
        let height: u32 = number_or(test.viewport_height, self.viewport_height);
        let open = if navigate {
            Some(steps::resolve_url(start_url.as_str(), base_url.as_str()))
        } else {
            None
        };
        TestPlan {
            base_url,
            viewport: (width, height),
            switch_viewport: width != applied.0 || height != applied.1,
            open,
        }
    }

    /// Builds an `LlmConfig` from a resolved endpoint, falling back to the
    /// runner's default LLM config for any unset fields.
    pub fn build_llm_for_endpoint(&self, endpoint: &ResolvedEndpoint) -> (r: LlmConfig)
        ensures
            is_endpoint_llm(r, *endpoint, self.llm),
    {
        let url = if endpoint.url.as_str().is_empty() {
            self.llm.url.clone()
        } else {
            endpoint.url.clone()
        };
        let api_key = match &endpoint.api_key {
            Some(k) => Some(k.clone()),
            None => named::copy_option(&self.llm.api_key),
        };
        let headers = if endpoint.headers.len() == 0 {
            named::copy_named(&self.llm.headers)
        } else {
            named::copy_named(&endpoint.headers)
        };
        let mut model_params: Vec<(String, serde_json::Value)> = Vec::new();
        llm::append_entries(&mut model_params, &self.llm.model_params);
        assert(json::entries_of(model_params@) =~= json::entries_of(self.llm.model_params@));
        LlmConfig {
            url,
            model: llm::value_or(&endpoint.model, self.llm.model.as_str()),
            api_key,
            headers,
            timeout_secs: self.llm.timeout_secs,
            temperature: self.llm.temperature.clone(),
            thinking: self.llm.thinking,
            model_params,
            max_attempts: endpoint.max_attempts,
            provider: endpoint.provider,
            deployment: named::copy_option(&endpoint.deployment),
            api_version: named::copy_option(&endpoint.api_version),
            auth: endpoint.auth.copy(),
            header_commands: named::copy_named(&endpoint.header_commands),
            aws: endpoint.aws.copy(),
        }
    }

    /// What a test needs before its first step: its own settings, else those of
    /// the scenario, else the defaults; and whether its start page is opened.
    pub open spec fn plans(
        &self,
        test: TestGroup,
        applied: (u32, u32),
        env: EnvSettings,
        r: TestPlan,
    ) -> bool {
        let base = first_of(
            test.base_url,
            self.config.base_url,
            llm::or_default(env.base_url, "http://localhost:4200"@),
        );
        let start = first_of(test.start_url, self.config.start_url, "/dashboard"@);
        let navigate = match test.auto_navigate {
            Some(a) => a,
            None => self.config.auto_navigate,
        };
        &&& r.base_url@ == base
        &&& r.viewport.0 == match test.viewport_width {
            Some(w) => w,
            None => self.viewport_width,
        }
        &&& r.viewport.1 == match test.viewport_height {
            Some(h) => h,
            None => self.viewport_height,
        }
        &&& r.switch_viewport == (r.viewport != applied)
        &&& match r.open {
            Some(url) => navigate && url@ == steps::resolved_url(start, base),
            None => !navigate,
        }
    }

    /// The status of the budgets after a step of a test: that of the test by
    /// its own usage, the global one by the usage of all tests, this one
    /// included.
    pub open spec fn budgets_show(&self, test: TestGroup, r: BudgetStatus) -> bool {
        exists|own: UsageSnapshot, all: UsageSnapshot|
            {
                &&& #[trigger] is_usage(own, self.usage)
                &&& #[trigger] self.usage.amounts_to(all)
                &&& budgets::checked_all(r, self.budgets, test.name@, own, all, test.budget)
            }
    }

    /// Checks the budgets after a step of a test.
    pub fn check_budgets(&self, test: &TestGroup) -> (r: BudgetStatus)
        requires
            self.usage.wf(),
            self.usage.fits_together(),
        ensures
            self.budgets_show(*test, r),
    {
        let own = self.usage.current_test_snapshot();
        let all = self.usage.run_snapshot();
        let limit: Option<&BudgetDef> = match &test.budget {
            Some(b) => Some(b),
            None => None,
        };
        let status = self.budgets.check_all(test.name.as_str(), &own, &all, limit);
        assert(is_usage(own, self.usage));
        status
    }
}

/// A hard global budget stops a test as soon as the usage of all tests, the
/// running one included, exceeds one of its limits, and a soft one then warns
/// at least. Where it exceeds none and the test has no budget of its own,
/// nothing is reported.
pub proof fn law_global_budget_counts_the_running_test(
    runner: ScenarioRunner,
    test: TestGroup,
    r: BudgetStatus,
)
    requires
        runner.budgets_show(test, r),
        runner.budgets.global is Some,
    ensures
        ({
            let global = runner.budgets.global->0;
            let usage = runner.usage;
            let cost = costs::cap(
                usage.total().total_cost as nat + costs::cap(costs::sum_cost(usage.current())) as nat,
            );
            let tokens = usage.total().total_tokens as nat + costs::sum_tokens(usage.current());
            let calls = usage.total().total_calls as nat + costs::sum_calls(usage.current());
            let exceeded = (global.max_cost matches Some(m) && cost > m) || budgets::count_over(
                tokens,
                global.max_tokens,
            ) || budgets::count_over(calls, global.max_calls);
            &&& exceeded && global.enforcement == BudgetEnforcement::Hard ==> r is HardExceeded
            &&& exceeded ==> !(r is Within)
            &&& !exceeded && budgets::test_budget(runner.budgets, test.budget) is None
                ==> r is Within
        }),
{
    let (own, all) = choose|own: UsageSnapshot, all: UsageSnapshot|
        {
            &&& #[trigger] is_usage(own, runner.usage)
            &&& #[trigger] runner.usage.amounts_to(all)
            &&& budgets::checked_all(r, runner.budgets, test.name@, own, all, test.budget)
        };
    budgets::law_enforcement_is_kept(r, runner.budgets, test.name@, own, all, test.budget);
}

/// A snapshot shows the usage of the current test.
pub open spec fn is_usage(snapshot: UsageSnapshot, usage: UsageTracker) -> bool {
    snapshot.wf() && snapshot.endpoints@ == usage.current()
}

/// What follows in a call chain.
pub enum ChainNext {
    /// Call the endpoint at this position.
    Call(usize),
    /// The endpoint at this position has answered.
    Answered(usize),
    /// None has answered; what the last one said.
    Failed(String),
}

/// What follows the calls that were made along a chain of endpoints.
pub open spec fn chain_goes_on(
    r: ChainNext,
    len: nat,
    outcomes: Seq<Result<LlmResponse, String>>,
) -> bool {
    let n = outcomes.len();
    if n > 0 && outcomes[n - 1] is Ok {
        r == ChainNext::Answered((n - 1) as usize)
    } else if n < len {
        r == ChainNext::Call(n as usize)
    } else {
        r matches ChainNext::Failed(e) && e@ == outcomes[n - 1]->Err_0@
    }
}

/// The next move in a chain of `len` endpoints, by the outcomes of the calls
/// so far: each endpoint in turn, until one answers.
pub fn next_in_chain(len: usize, outcomes: &Vec<Result<LlmResponse, String>>) -> (r: ChainNext)
    requires
        0 < len,
        outcomes@.len() <= len,
    ensures
        chain_goes_on(r, len as nat, outcomes@),
{
    let n: usize = outcomes.len();
    if n == 0 {
        return ChainNext::Call(0);
    }
    match &outcomes[n - 1] {
        Ok(_) => ChainNext::Answered(n - 1),
        Err(e) => if n < len {
            ChainNext::Call(n)
        } else {
            ChainNext::Failed(e.clone())
        },
    }
}

/// The prompt of a step can be quoted in its label.
pub open spec fn labelable(step: TestStep) -> bool {
    step matches TestStep::Assert { definition: None, preset: None, prompt: Some(p), .. }
        ==> text::can_cut(p@, 60)
}

/// Human-readable label of a step.
pub open spec fn label_of(step: TestStep) -> Seq<char> {
    match step {
        TestStep::Navigate { url, .. } => "[navigate] "@ + url@,
        TestStep::Login { url, .. } => "[login] "@ + llm::or_default(url, steps::LOGIN_URL@),
        TestStep::Click { target, .. } => "[click] "@ + target@,
        TestStep::Type { target, .. } => "[type] "@ + target@,
        TestStep::Wait { target, .. } => "[wait] "@ + target@,
        TestStep::Assert { definition, preset, prompt, .. } => if definition is Some {
            "[assert] "@ + definition->0@
        } else if preset is Some {
            "[assert] "@ + preset->0@
        } else if prompt is Some {
            "[assert] custom ("@ + text::truncated(prompt->0@, 60) + ")"@
        } else {
            "[assert]"@
        },
        TestStep::Screenshot { .. } => "[screenshot]"@,
        TestStep::Agent { agent, .. } => "[agent] "@ + agent@,
        TestStep::Mcp { server, tool, .. } => "[mcp] "@ + server@ + ":"@ + tool@,
    }
}

/// Human-readable label for a step, used when steps are skipped after an
/// earlier failure. A quoted prompt is cut after 60 bytes, which must be where
/// a character ends.
pub fn step_label(step: &TestStep) -> (r: String)
    requires
        labelable(*step),
    ensures
        r@ == label_of(*step),
{
    match step {
        TestStep::Navigate { url, .. } => steps::glue("[navigate] ", url.as_str()),
        TestStep::Login { url, .. } => {
            let page = llm::value_or(url, steps::LOGIN_URL);
            steps::glue("[login] ", page.as_str())
        },
        TestStep::Click { target, .. } => steps::glue("[click] ", target.as_str()),
        TestStep::Type { target, .. } => steps::glue("[type] ", target.as_str()),
        TestStep::Wait { target, .. } => steps::glue("[wait] ", target.as_str()),
        TestStep::Assert { definition, preset, prompt, .. } => {
            if let Some(d) = definition {
                return steps::glue("[assert] ", d.as_str());
            }
            if let Some(p) = preset {
                return steps::glue("[assert] ", p.as_str());
            }
            if let Some(p) = prompt {
                let shown = text::truncate(p.as_str(), 60);
                return steps::glue3("[assert] custom (", shown.as_str(), ")");
            }
            "[assert]".to_owned()
        },
        TestStep::Screenshot { .. } => "[screenshot]".to_owned(),
        TestStep::Agent { agent, .. } => steps::glue("[agent] ", agent.as_str()),
        TestStep::Mcp { server, tool, .. } => steps::glue4(
            "[mcp] ",
            server.as_str(),
            ":",
            tool.as_str(),
        ),
    }
}

/// Short kind word of a step.
pub open spec fn kind_of(step: TestStep) -> Seq<char> {
    match step {
        TestStep::Navigate { .. } => "navigate"@,
        TestStep::Login { .. } => "login"@,
        TestStep::Click { .. } => "click"@,
        TestStep::Type { .. } => "type"@,
        TestStep::Wait { .. } => "wait"@,
        TestStep::Assert { .. } => "assert"@,
        TestStep::Screenshot { .. } => "screenshot"@,
        TestStep::Agent { .. } => "agent"@,
        TestStep::Mcp { .. } => "mcp"@,
    }
}

/// Short kind word for artifact file names (e.g. `click`, `wait`, `assert`).
pub fn step_kind_label(step: &TestStep) -> (r: &'static str)
    ensures
        r@ == kind_of(*step),
{
    match step {
        TestStep::Navigate { .. } => "navigate",
        TestStep::Login { .. } => "login",
        TestStep::Click { .. } => "click",
        TestStep::Type { .. } => "type",
        TestStep::Wait { .. } => "wait",
        TestStep::Assert { .. } => "assert",
        TestStep::Screenshot { .. } => "screenshot",
        TestStep::Agent { .. } => "agent",
        TestStep::Mcp { .. } => "mcp",
    }
}

/// How long a test pauses after a step.
pub open spec fn pause_of(step: TestStep) -> Option<u64> {
    match step {
        TestStep::Navigate { wait_after_ms, .. } => wait_after_ms,
        TestStep::Login { wait_after_ms, .. } => wait_after_ms,
        TestStep::Click { wait_after_ms, .. } => wait_after_ms,
        TestStep::Type { wait_after_ms, .. } => wait_after_ms,
        _ => None,
    }
}

/// How long a test pauses after a step, in milliseconds.
fn pause_after(step: &TestStep) -> (r: Option<u64>)
    ensures
        r == pause_of(*step),
{
    match step {
        TestStep::Navigate { wait_after_ms, .. } => *wait_after_ms,
        TestStep::Login { wait_after_ms, .. } => *wait_after_ms,
        TestStep::Click { wait_after_ms, .. } => *wait_after_ms,
        TestStep::Type { wait_after_ms, .. } => *wait_after_ms,
        _ => None,
    }
}

/// Adds the state of the page to the message of a failed step.
pub fn with_diagnostics(result: StepResult, state: &PageState) -> (r: StepResult)
    ensures
        r.name == result.name,
        r.status == result.status,
        r.message@ == if result.status == StepStatus::Failed {
            result.message@ + " — "@ + diagnostics::excerpt_of(*state)
        } else {
            result.message@
        },
{
    if result.status != StepStatus::Failed {
        return result;
    }
    let excerpt = diagnostics::inline_excerpt(state);
    let message = steps::glue3(result.message.as_str(), " — ", excerpt.as_str());
    StepResult { name: result.name, status: result.status, message }
}

/// What the steps of a test add up to.
pub struct TestRunResult {
    /// Number of steps that passed.
    pub passed: u32,
    /// Number of steps that failed.
    pub failed: u32,
    /// Number of steps that were skipped.
    pub skipped: u32,
    /// Number of steps.
    pub total: u32,
    /// Per-step details.
    pub details: Vec<StepResult>,
}

impl Default for TestRunResult {
    fn default() -> (r: Self)
        ensures
            r.tally() == no_steps(),
    {
        let r = TestRunResult {
            passed: 0,
            failed: 0,
            skipped: 0,
            total: 0,
            details: Vec::new(),
        };
        assert(details_of(r.details@) =~= Seq::<Detail>::empty());
        r
    }
}

/// The name, status and message of a step.
pub type Detail = (Seq<char>, StepStatus, Seq<char>);

/// The name, status and message of a step.
pub open spec fn detail_of(r: StepResult) -> Detail {
    (r.name@, r.status, r.message@)
}

/// The names, statuses and messages of steps.
pub open spec fn details_of(s: Seq<StepResult>) -> Seq<Detail> {
    s.map_values(|r: StepResult| detail_of(r))
}

/// What the steps of a test add up to.
pub struct Tally {
    /// Steps that passed.
    pub passed: int,
    /// Steps that failed.
    pub failed: int,
    /// Steps that were skipped.
    pub skipped: int,
    /// All steps.
    pub total: int,
    /// Per-step details.
    pub details: Seq<Detail>,
}

/// Nothing yet.
pub open spec fn no_steps() -> Tally {
    Tally { passed: 0, failed: 0, skipped: 0, total: 0, details: Seq::empty() }
}

impl Tally {
    /// One more step with that status, without its details.
    pub open spec fn plus(self, status: StepStatus) -> Tally {
        Tally {
            passed: self.passed + (if status == StepStatus::Passed {
                1int
            } else {
                0
            }),
            failed: self.failed + (if status == StepStatus::Failed {
                1int
            } else {
                0
            }),
            skipped: self.skipped + (if status == StepStatus::Skipped {
                1int
            } else {
                0
            }),
            total: self.total + 1,
            details: self.details,
        }
    }

    /// With one more detail.
    pub open spec fn noting(self, detail: Detail) -> Tally {
        Tally { details: self.details.push(detail), ..self }
    }

    /// With the given steps skipped.
    pub open spec fn skipping(self, rest: Seq<TestStep>) -> Tally {
        Tally {
            skipped: self.skipped + rest.len(),
            total: self.total + rest.len(),
            details: self.details + rest.map_values(
                |s: TestStep|
                    (label_of(s), StepStatus::Skipped, "skipped: previous step failed"@),
            ),
            ..self
        }
    }

    /// With the budget as one more failure. It counts as no step.
    pub open spec fn over_budget(self, message: Seq<char>) -> Tally {
        Tally {
            failed: self.failed + 1,
            details: self.details.push(("[budget]"@, StepStatus::Failed, message)),
            ..self
        }
    }

    /// Every step is counted under its status.
    pub open spec fn sums_up(self) -> bool {
        &&& 0 <= self.passed && 0 <= self.failed && 0 <= self.skipped
        &&& self.total == self.passed + self.failed + self.skipped
    }
}

/// Whether a step ends its test: it failed, others would follow, and the test
/// does not continue on failure.
pub open spec fn fails_fast(steps: Seq<TestStep>, index: int, status: StepStatus, continues: bool) -> bool {
    status == StepStatus::Failed && !continues && index + 1 < steps.len()
}

/// What the steps of a test add up to after one more.
pub open spec fn tally_after(
    before: Tally,
    steps: Seq<TestStep>,
    index: int,
    step: Detail,
    continues: bool,
    budget: BudgetStatus,
) -> Tally {
    let counted = before.plus(step.1);
    if fails_fast(steps, index, step.1, continues) {
        counted.skipping(steps.skip(index + 1)).noting(step)
    } else {
        match budget {
            BudgetStatus::HardExceeded { message, .. } => counted.over_budget(message@),
            _ => counted.noting(step),
        }
    }
}

/// What follows a step.
pub enum AfterStep {
    /// The next step, after a pause and a warning.
    Continue {
        /// Milliseconds to pause.
        pause_ms: Option<u64>,
        /// The soft budget that is exceeded.
        warning: Option<String>,
    },
    /// The test ends: it failed fast, and this many steps were skipped.
    FailedFast {
        /// Steps that were skipped.
        skipped: usize,
    },
    /// The test ends: a hard budget is exceeded.
    OverBudget {
        /// Which one, and by how much.
        message: String,
    },
}

/// What follows a step.
pub open spec fn goes_on(
    r: AfterStep,
    steps: Seq<TestStep>,
    index: int,
    status: StepStatus,
    continues: bool,
    budget: BudgetStatus,
) -> bool {
    if fails_fast(steps, index, status, continues) {
        r matches AfterStep::FailedFast { skipped } && skipped == steps.len() - index - 1
    } else {
        match budget {
            BudgetStatus::HardExceeded { message, .. } => r matches AfterStep::OverBudget {
                message: m,
            } && m@ == message@,
            BudgetStatus::SoftExceeded { message, .. } => r matches AfterStep::Continue {
                pause_ms,
                warning: Some(w),
            } && pause_ms == pause_of(steps[index]) && w@ == message@,
            BudgetStatus::Within => r matches AfterStep::Continue { pause_ms, warning: None }
                && pause_ms == pause_of(steps[index]),
        }
    }
}

impl TestRunResult {
    /// What the steps add up to.
    pub open spec fn tally(&self) -> Tally {
        Tally {
            passed: self.passed as int,
            failed: self.failed as int,
            skipped: self.skipped as int,
            total: self.total as int,
            details: details_of(self.details@),
        }
    }

    /// Marks the remaining steps as skipped.
    fn skip_rest(&mut self, steps: &Vec<TestStep>, from: usize)
        requires
            from <= steps@.len(),
            forall|k: int| from <= k < steps@.len() ==> labelable(#[trigger] steps@[k]),
            old(self).skipped + (steps@.len() - from) <= u32::MAX,
            old(self).total + (steps@.len() - from) <= u32::MAX,
        ensures
            final(self).tally() == old(self).tally().skipping(steps@.skip(from as int)),
    {
        let ghost before = self.tally();
        let ghost rest = steps@.skip(from as int);
        let mut i: usize = from;
        assert(self.tally() == before.skipping(rest.take(0))) by {
            assert(self.tally().details =~= before.skipping(rest.take(0)).details);
        }
        while i < steps.len()
            invariant
                from <= i <= steps@.len(),
                rest == steps@.skip(from as int),
                forall|k: int| from <= k < steps@.len() ==> labelable(#[trigger] steps@[k]),
                self.tally() == before.skipping(rest.take(i - from)),
                before.skipped + (steps@.len() - from) <= u32::MAX,
                before.total + (steps@.len() - from) <= u32::MAX,
            decreases steps@.len() - i,
        {
            let ghost now = details_of(self.details@);
            self.total += 1;
            self.skipped += 1;
            let label = step_label(&steps[i]);
            let skipped = steps::result(
                label.as_str(),
                StepStatus::Skipped,
                "skipped: previous step failed",
            );
            self.details.push(skipped);
            assert(details_of(self.details@) =~= now.push(detail_of(skipped)));
            assert(rest[i - from] == steps@[i as int]);
            assert(self.tally().details =~= before.skipping(rest.take(i + 1 - from)).details);
            i += 1;
        }
        assert(rest.take(i - from) =~= rest);
    }

    /// Takes the result of the step at `index` and the state of the budgets
    /// after it.
    ///
    /// Fail fast: the first failed step ends the test and the remaining steps
    /// are reported as skipped (no LLM budget is burned asserting against a
    /// page that is already known broken), unless the test continues on
    /// failure. A hard budget ends the test as well, and counts as a failure.
    pub fn step_finished(
        &mut self,
        steps: &Vec<TestStep>,
        index: usize,
        result: StepResult,
        continue_on_failure: bool,
        budget: BudgetStatus,
    ) -> (r: AfterStep)
        requires
            index < steps@.len(),
            old(self).passed < u32::MAX,
            old(self).failed < u32::MAX - 1,
            old(self).skipped + (steps@.len() - index) <= u32::MAX,
            old(self).total + (steps@.len() - index) <= u32::MAX,
            fails_fast(steps@, index as int, result.status, continue_on_failure) ==> forall|k: int|
                index < k < steps@.len() ==> labelable(#[trigger] steps@[k]),
        ensures
            final(self).tally() == tally_after(
                old(self).tally(),
                steps@,
                index as int,
                detail_of(result),
                continue_on_failure,
                budget,
            ),
            goes_on(r, steps@, index as int, result.status, continue_on_failure, budget),
    {
        let ghost start = self.tally();
        self.total += 1;
        match result.status {
            StepStatus::Passed => {
                self.passed += 1;
            },
            StepStatus::Failed => {
                self.failed += 1;
            },
            StepStatus::Skipped => {
                self.skipped += 1;
            },
        }
        assert(self.tally() == start.plus(result.status));
        if result.status == StepStatus::Failed && !continue_on_failure && index < steps.len() - 1 {
            self.skip_rest(steps, index + 1);
            let ghost now = details_of(self.details@);
            self.details.push(result);
            assert(details_of(self.details@) =~= now.push(detail_of(result)));
            return AfterStep::FailedFast { skipped: steps.len() - index - 1 };
        }
        let warning = match budget {
            BudgetStatus::HardExceeded { message, .. } => {
                let ghost now = details_of(self.details@);
                let noted = steps::result("[budget]", StepStatus::Failed, message.as_str());
                self.details.push(noted);
                assert(details_of(self.details@) =~= now.push(detail_of(noted)));
                self.failed += 1;
                return AfterStep::OverBudget { message };
            },
            BudgetStatus::SoftExceeded { message, .. } => Some(message),
            BudgetStatus::Within => None,
        };
        let ghost now = details_of(self.details@);
        self.details.push(result);
        assert(details_of(self.details@) =~= now.push(detail_of(result)));
        AfterStep::Continue { pause_ms: pause_after(&steps[index]), warning }
    }
}

/// Aggregated results from a scenario run.
pub struct RunReport {
    /// Number of tests that passed.
    pub tests_passed: u32,
    /// Number of tests that failed.
    pub tests_failed: u32,
    /// Number of steps that passed.
    pub passed: u32,
    /// Number of steps that failed.
    pub failed: u32,
    /// Number of steps that were skipped.
    pub skipped: u32,
    /// Per-step details.
    pub details: Vec<StepResult>,
}

impl Default for RunReport {
    fn default() -> (r: Self)
        ensures
            r.tests_passed == 0,
            r.tests_failed == 0,
            r.passed == 0,
            r.failed == 0,
            r.skipped == 0,
            r.details@.len() == 0,
    {
        RunReport {
            tests_passed: 0,
            tests_failed: 0,
            passed: 0,
            failed: 0,
            skipped: 0,
            details: Vec::new(),
        }
    }
}

/// The verdict on a test: passed, failed, or none where it has no steps.
pub open spec fn test_passed(t: Tally) -> Option<bool> {
    if t.total == 0 {
        None
    } else {
        Some(t.failed == 0)
    }
}

impl RunReport {
    /// The counts of one more test fit their counters.
    pub open spec fn has_room(&self, t: Tally) -> bool {
        &&& self.tests_passed < u32::MAX
        &&& self.tests_failed < u32::MAX
        &&& self.passed + t.passed <= u32::MAX
        &&& self.failed + t.failed <= u32::MAX
        &&& self.skipped + t.skipped <= u32::MAX
    }

    /// The report after one more test.
    pub open spec fn extended_by(&self, t: Tally, after: RunReport) -> bool {
        &&& after.tests_passed == self.tests_passed + (if test_passed(t) == Some(true) {
            1int
        } else {
            0
        })
        &&& after.tests_failed == self.tests_failed + (if test_passed(t) == Some(false) {
            1int
        } else {
            0
        })
        &&& after.passed == self.passed + t.passed
        &&& after.failed == self.failed + t.failed
        &&& after.skipped == self.skipped + t.skipped
        &&& details_of(after.details@) == details_of(self.details@) + t.details
    }

    /// Adds the result of a test, and says whether it passed; a test without
    /// steps counts as neither.
    pub fn add_test(&mut self, result: TestRunResult) -> (r: Option<bool>)
        requires
            old(self).has_room(result.tally()),
        ensures
            old(self).extended_by(result.tally(), *final(self)),
            r == test_passed(result.tally()),
    {
        let verdict = if result.total == 0 {
            None
        } else {
            Some(result.failed == 0)
        };
        if let Some(passed) = verdict {
            if passed {
                self.tests_passed += 1;
            } else {
                self.tests_failed += 1;
            }
        }
        self.passed += result.passed;
        self.failed += result.failed;
        self.skipped += result.skipped;
        let ghost before = self.details@;
        let mut more = result.details;
        let ghost added = more@;
        self.details.append(&mut more);
        assert(self.details@ == before + added);
        assert(details_of(self.details@) =~= details_of(before) + details_of(added));
        verdict
    }
}

/// What becomes of a scenario that runs as a test of its own.
pub enum ScenarioVerdict {
    /// It passed.
    Passed,
    /// It could not be evaluated, and why.
    Skipped(String),
    /// It failed, and why.
    Failed(String),
}

/// A message says that the LLM could not be reached.
pub open spec fn blames_llm(message: Seq<char>) -> bool {
    text::has_text(message, "LLM assertion call failed"@) || text::has_text(
        message,
        "LLM element targeting failed"@,
    )
}

/// A step of a run says that the LLM could not be reached.
pub open spec fn llm_unavailable(report: RunReport) -> bool {
    exists|i: int| 0 <= i < report.details@.len() && blames_llm((#[trigger] report.details@[i]).message@)
}

/// Whether a step of a run says that the LLM could not be reached.
fn any_blames_llm(details: &Vec<StepResult>) -> (r: bool)
    ensures
        r == exists|i: int|
            0 <= i < details@.len() && blames_llm((#[trigger] details@[i]).message@),
{
    let mut i: usize = 0;
    while i < details.len()
        invariant
            i <= details@.len(),
            forall|k: int| 0 <= k < i ==> !blames_llm((#[trigger] details@[k]).message@),
        decreases details@.len() - i,
    {
        let message = details[i].message.as_str();
        if text::contains_text(message, "LLM assertion call failed") || text::contains_text(
            message,
            "LLM element targeting failed",
        ) {
            assert(blames_llm(details@[i as int].message@));
            return true;
        }
        i += 1;
    }
    false
}

/// What a run says of a scenario.
pub open spec fn is_verdict(
    r: ScenarioVerdict,
    name: Seq<char>,
    outcome: Result<RunReport, String>,
) -> bool {
    match outcome {
        Err(e) => if text::has_text(e@, "failed to launch browser"@) {
            r matches ScenarioVerdict::Skipped(m) && m@ == "⏭️  skipping "@ + name
                + ": browser unavailable ("@ + e@ + ")"@
        } else {
            r matches ScenarioVerdict::Failed(m) && m@ == name + ": scenario run failed: "@ + e@
        },
        Ok(report) => if report.tests_passed == 0 && report.failed > 0 && llm_unavailable(report) {
            r matches ScenarioVerdict::Skipped(m) && m@ == "⏭️  skipping "@ + name
                + ": LLM endpoint unavailable"@
        } else if report.tests_failed != 0 {
            r matches ScenarioVerdict::Failed(m) && m@ == name + ": "@ + text::dec(
                report.tests_failed as nat,
            ) + " test(s) failed, "@ + text::dec(report.tests_passed as nat) + " passed"@
        } else if report.tests_passed == 0 {
            r matches ScenarioVerdict::Failed(m) && m@ == name + ": no tests ran"@
        } else {
            r is Passed
        },
    }
}

/// What becomes of a scenario that runs as the test `name` of its own: it is
/// skipped where the browser or the LLM is not there.
pub fn scenario_verdict(name: &str, outcome: &Result<RunReport, String>) -> (r: ScenarioVerdict)
    ensures
        is_verdict(r, name@, *outcome),
{
    let report = match outcome {
        Err(e) => {
            if text::contains_text(e.as_str(), "failed to launch browser") {
                let mut m = steps::glue3("⏭️  skipping ", name, ": browser unavailable (");
                m.append(e.as_str());
                m.append(")");
                return ScenarioVerdict::Skipped(m);
            }
            return ScenarioVerdict::Failed(
                steps::glue3(name, ": scenario run failed: ", e.as_str()),
            );
        },
        Ok(r) => r,
    };
    if report.tests_passed == 0 && report.failed > 0 && any_blames_llm(&report.details) {
        return ScenarioVerdict::Skipped(
            steps::glue3("⏭️  skipping ", name, ": LLM endpoint unavailable"),
        );
    }
    if report.tests_failed != 0 {
        let mut m = steps::glue(name, ": ");
        m.append(text::decimal(report.tests_failed as u128).as_str());
        m.append(" test(s) failed, ");
        m.append(text::decimal(report.tests_passed as u128).as_str());
        m.append(" passed");
        return ScenarioVerdict::Failed(m);
    }
    if report.tests_passed == 0 {
        return ScenarioVerdict::Failed(steps::glue(name, ": no tests ran"));
    }
    ScenarioVerdict::Passed
}

/// Counting a step, and skipping those behind a failed one, keeps every step
/// counted under its status. Only a hard budget adds a failure that is no
/// step.
pub proof fn law_steps_sum_up(
    before: Tally,
    steps: Seq<TestStep>,
    index: int,
    step: Detail,
    continues: bool,
    budget: BudgetStatus,
)
    requires
        before.sums_up(),
        0 <= index < steps.len(),
    ensures
        fails_fast(steps, index, step.1, continues) || !(budget is HardExceeded) ==> tally_after(
            before,
            steps,
            index,
            step,
            continues,
            budget,
        ).sums_up(),
        !fails_fast(steps, index, step.1, continues) && budget is HardExceeded ==> {
            let after = tally_after(before, steps, index, step, continues, budget);
            after.total + 1 == after.passed + after.failed + after.skipped
        },
{
}

/// A test that fails fast still reports every step: after `index` steps of
/// which each has its entry, the failed one and all behind it are added.
pub proof fn law_fail_fast_reports_all(
    before: Tally,
    steps: Seq<TestStep>,
    index: int,
    step: Detail,
    budget: BudgetStatus,
)
    requires
        0 <= index < steps.len(),
        before.total == index,
        before.details.len() == index,
        step.1 == StepStatus::Failed,
        index + 1 < steps.len(),
    ensures
        ({
            let after = tally_after(before, steps, index, step, false, budget);
            &&& after.total == steps.len()
            &&& after.details.len() == steps.len()
            &&& after.details.last() == step
            &&& after.failed == before.failed + 1
            &&& after.passed == before.passed
            &&& forall|k: int|
                index < k < steps.len() ==> after.details[k - 1] == (
                    label_of(#[trigger] steps[k]),
                    StepStatus::Skipped,
                    "skipped: previous step failed"@,
                )
        }),
{
    let after = tally_after(before, steps, index, step, false, budget);
    let rest = steps.skip(index + 1);
    assert forall|k: int| index < k < steps.len() implies after.details[k - 1] == (
        label_of(#[trigger] steps[k]),
        StepStatus::Skipped,
        "skipped: previous step failed"@,
    ) by {
        assert(rest[k - index - 1] == steps[k]);
    }
}

/// A test with a failed step never counts as passed.
pub proof fn law_failed_step_fails_test(
    before: Tally,
    steps: Seq<TestStep>,
    index: int,
    step: Detail,
    continues: bool,
    budget: BudgetStatus,
)
    requires
        before.sums_up(),
        0 <= index < steps.len(),
        before.failed > 0 || step.1 == StepStatus::Failed || budget is HardExceeded,
    ensures
        test_passed(tally_after(before, steps, index, step, continues, budget)) == Some(false),
{
}

/// A softly exceeded budget changes nothing in the result of a test.
pub proof fn law_soft_budget_goes_on(
    before: Tally,
    steps: Seq<TestStep>,
    index: int,
    step: Detail,
    continues: bool,
    budget: BudgetStatus,
)
    requires
        0 <= index < steps.len(),
        budget is SoftExceeded,
    ensures
        tally_after(before, steps, index, step, continues, budget) == tally_after(
            before,
            steps,
            index,
            step,
            continues,
            BudgetStatus::Within,
        ),
{
}

/// A test that exceeds a hard budget fails.
pub proof fn law_hard_budget_fails_test(
    before: Tally,
    steps: Seq<TestStep>,
    index: int,
    step: Detail,
    continues: bool,
    budget: BudgetStatus,
)
    requires
        0 <= index < steps.len(),
        before.failed >= 0,
        before.total >= 0,
        budget is HardExceeded,
    ensures
        test_passed(tally_after(before, steps, index, step, continues, budget)) == Some(false),
{
}

/// A test with at least one step counts as passed where none of them failed,
/// and else as failed; a test without steps counts as neither. Its steps are
/// added to those of the run.
pub proof fn law_tests_count_by_their_failures(report: RunReport, t: Tally, after: RunReport)
    requires
        report.extended_by(t, after),
    ensures
        t.total > 0 && t.failed == 0 ==> test_passed(t) == Some(true) && after.tests_passed
            == report.tests_passed + 1 && after.tests_failed == report.tests_failed,
        t.total > 0 && t.failed != 0 ==> test_passed(t) == Some(false) && after.tests_passed
            == report.tests_passed && after.tests_failed == report.tests_failed + 1,
        t.total == 0 ==> test_passed(t) is None && after.tests_passed == report.tests_passed
            && after.tests_failed == report.tests_failed,
        after.passed - report.passed == t.passed,
        after.failed - report.failed == t.failed,
        after.skipped - report.skipped == t.skipped,
        after.details@.len() == report.details@.len() + t.details.len(),
{
    assert(details_of(after.details@).len() == after.details@.len());
}

/// A step counts once, under its own status, and its result is the entry that
/// it adds.
pub proof fn law_each_step_counts_once(
    before: Tally,
    steps: Seq<TestStep>,
    index: int,
    step: Detail,
    continues: bool,
)
    requires
        0 <= index < steps.len(),
        step.1 != StepStatus::Failed || continues || index + 1 == steps.len(),
    ensures
        ({
            let after = tally_after(before, steps, index, step, continues, BudgetStatus::Within);
            &&& after.total == before.total + 1
            &&& after.passed == before.passed + (if step.1 == StepStatus::Passed {
                1int
            } else {
                0
            })
            &&& after.failed == before.failed + (if step.1 == StepStatus::Failed {
                1int
            } else {
                0
            })
            &&& after.skipped == before.skipped + (if step.1 == StepStatus::Skipped {
                1int
            } else {
                0
            })
            &&& after.details == before.details.push(step)
        }),
{
}

/// A test whose steps all pass, within its budgets, counts as passed however
/// many they are: no step that is not failed turns it into a failed one.
pub proof fn law_passing_steps_keep_the_test_green(
    before: Tally,
    steps: Seq<TestStep>,
    index: int,
    step: Detail,
    continues: bool,
)
    requires
        0 <= index < steps.len(),
        before.total >= 0,
        before.failed == 0,
        step.1 != StepStatus::Failed,
    ensures
        test_passed(
            tally_after(before, steps, index, step, continues, BudgetStatus::Within),
        ) == Some(true),
{
}

/// A test runs at its own address and size where it sets them, else at those of
/// the scenario; its start page is opened unless it says otherwise, or says
/// nothing and the scenario says otherwise.
pub proof fn law_tests_run_by_their_own_settings(
    runner: ScenarioRunner,
    test: TestGroup,
    applied: (u32, u32),
    env: EnvSettings,
    r: TestPlan,
)
    requires
        runner.plans(test, applied, env, r),
    ensures
        test.base_url matches Some(u) ==> r.base_url@ == u@,
        test.base_url is None ==> (runner.config.base_url matches Some(u) ==> r.base_url@ == u@),
        test.base_url is None && runner.config.base_url is None && env.base_url is None
            ==> r.base_url@ == "http://localhost:4200"@,
        test.viewport_width matches Some(w) ==> r.viewport.0 == w,
        test.viewport_width is None ==> r.viewport.0 == runner.viewport_width,
        test.viewport_height matches Some(h) ==> r.viewport.1 == h,
        test.viewport_height is None ==> r.viewport.1 == runner.viewport_height,
        r.switch_viewport <==> r.viewport.0 != applied.0 || r.viewport.1 != applied.1,
        test.auto_navigate matches Some(a) ==> (r.open is Some <==> a),
        test.auto_navigate is None ==> (r.open is Some <==> runner.config.auto_navigate),
        (r.open is Some && test.start_url is Some) ==> r.open->0@ == steps::resolved_url(
            test.start_url->0@,
            r.base_url@,
        ),
        (r.open is Some && test.start_url is None && runner.config.start_url is None)
            ==> r.open->0@ == steps::resolved_url("/dashboard"@, r.base_url@),
{
}

/// A chain of endpoints is called one after the other, each once, until one
/// answers; where none does the last error counts.
pub proof fn law_chain_is_called_until_answered(
    r: ChainNext,
    len: nat,
    outcomes: Seq<Result<LlmResponse, String>>,
)
    requires
        chain_goes_on(r, len, outcomes),
        0 < len <= usize::MAX,
        outcomes.len() <= len,
        forall|k: int| 0 <= k < outcomes.len() - 1 ==> (#[trigger] outcomes[k]) is Err,
    ensures
        r matches ChainNext::Answered(i) ==> i == outcomes.len() - 1 && outcomes[i as int] is Ok,
        r matches ChainNext::Call(i) ==> i == outcomes.len() && i < len && forall|k: int|
            0 <= k < i ==> (#[trigger] outcomes[k]) is Err,
        r matches ChainNext::Failed(e) ==> outcomes.len() == len && (outcomes.last() matches Err(x)
            && x@ == e@),
        (exists|k: int| 0 <= k < outcomes.len() && (#[trigger] outcomes[k]) is Ok) ==> r
            is Answered,
{
}

/// What follows a step: a failure ends the test at once, unless it goes on
/// after failures or was at its last step; a hard budget ends it too; a soft
/// one warns. Then the pause that the step asks for is made.
pub proof fn law_tests_go_on_after_their_steps(
    r: AfterStep,
    steps: Seq<TestStep>,
    index: int,
    status: StepStatus,
    continues: bool,
    budget: BudgetStatus,
)
    requires
        goes_on(r, steps, index, status, continues, budget),
        0 <= index < steps.len(),
    ensures
        status == StepStatus::Failed && !continues && index + 1 < steps.len() ==> (
        r matches AfterStep::FailedFast { skipped } && skipped == steps.len() - (index + 1)),
        status != StepStatus::Failed || continues || index + 1 == steps.len() ==> {
            &&& budget is Within ==> (r matches AfterStep::Continue { warning, .. }
                && warning is None)
            &&& budget matches BudgetStatus::SoftExceeded { message, .. } ==> (
            r matches AfterStep::Continue { warning, .. } && warning is Some && warning->0@
                == message@)
            &&& budget matches BudgetStatus::HardExceeded { message, .. } ==> (
            r matches AfterStep::OverBudget { message: m } && m@ == message@)
        },
        r matches AfterStep::Continue { pause_ms, .. } ==> {
            &&& steps[index] matches TestStep::Navigate { wait_after_ms, .. } ==> pause_ms
                == wait_after_ms
            &&& steps[index] matches TestStep::Login { wait_after_ms, .. } ==> pause_ms
                == wait_after_ms
            &&& steps[index] matches TestStep::Click { wait_after_ms, .. } ==> pause_ms
                == wait_after_ms
            &&& steps[index] matches TestStep::Type { wait_after_ms, .. } ==> pause_ms
                == wait_after_ms
            &&& steps[index] is Wait || steps[index] is Assert || steps[index] is Screenshot
                || steps[index] is Agent || steps[index] is Mcp ==> pause_ms is None
        },
{
}

/// A scenario passes if and only if a test passed and none failed. It is
/// skipped where the browser did not start, or where nothing passed because
/// the LLM could not be reached; else it fails, and so does one without tests.
#[verifier::rlimit(60)]
pub proof fn law_scenarios_pass_by_their_tests(
    r: ScenarioVerdict,
    name: Seq<char>,
    outcome: Result<RunReport, String>,
)
    requires
        is_verdict(r, name, outcome),
    ensures
        r is Passed ==> outcome is Ok && (outcome->Ok_0).tests_passed > 0 && (
        outcome->Ok_0).tests_failed == 0,
        (outcome matches Ok(report) && report.tests_passed > 0 && report.tests_failed == 0)
            ==> r is Passed,
        (outcome matches Ok(report) && report.tests_passed > 0 && report.tests_failed > 0)
            ==> r is Failed,
        (outcome matches Ok(report) && report.tests_passed == 0 && report.failed == 0)
            ==> r is Failed,
        (outcome matches Ok(report) && report.tests_passed == 0 && report.failed > 0 && exists|
            i: int,
        |
            0 <= i < report.details@.len() && text::has_text(
                (#[trigger] report.details@[i]).message@,
                "LLM element targeting failed"@,
            )) ==> r is Skipped,
        (outcome matches Ok(report) && report.tests_passed == 0 && report.failed > 0 && exists|
            i: int,
        |
            0 <= i < report.details@.len() && text::has_text(
                (#[trigger] report.details@[i]).message@,
                "LLM assertion call failed"@,
            )) ==> r is Skipped,
        (outcome matches Ok(report) && report.details@.len() == 0) ==> !(r is Skipped),
        outcome matches Err(e) ==> (r is Skipped <==> text::has_text(
            e@,
            "failed to launch browser"@,
        )),
        outcome is Err ==> !(r is Passed),
        r matches ScenarioVerdict::Failed(m) ==> m@.len() >= name.len() && m@.take(
            name.len() as int,
        ) == name,
{
    if let ScenarioVerdict::Failed(m) = r {
        assert(m@.take(name.len() as int) =~= name);
    }
    if let Ok(report) = outcome {
        assert forall|i: int| 0 <= i < report.details@.len() && (text::has_text(
            (#[trigger] report.details@[i]).message@,
            "LLM element targeting failed"@,
        ) || text::has_text(report.details@[i].message@, "LLM assertion call failed"@)) implies llm_unavailable(
            report,
        ) by {
            assert(blames_llm(report.details@[i].message@));
        }
    }
}

/// The label of a step begins with its kind in brackets, and names what the
/// step is about.
#[verifier::rlimit(60)]
pub proof fn law_labels_name_kind_and_target(step: TestStep)
    ensures
        ({
            let label = label_of(step);
            let kind = kind_of(step);
            &&& label.len() >= kind.len() + 2
            &&& label[0] == '['
            &&& label.subrange(1, kind.len() as int + 1) == kind
            &&& label[kind.len() as int + 1] == ']'
            &&& step matches TestStep::Click { target, .. } ==> text::has_text(label, target@)
            &&& step matches TestStep::Type { target, .. } ==> text::has_text(label, target@)
            &&& step matches TestStep::Wait { target, .. } ==> text::has_text(label, target@)
            &&& step matches TestStep::Navigate { url, .. } ==> text::has_text(label, url@)
            &&& step matches TestStep::Agent { agent, .. } ==> text::has_text(label, agent@)
            &&& step matches TestStep::Mcp { server, tool, .. } ==> text::has_text(label, server@)
                && text::has_text(label, tool@)
            &&& step matches TestStep::Assert { definition: Some(d), .. } ==> text::has_text(
                label,
                d@,
            )
        }),
{
    reveal_strlit("[navigate] ");
    reveal_strlit("navigate");
    reveal_strlit("[login] ");
    reveal_strlit("login");
    reveal_strlit("[click] ");
    reveal_strlit("click");
    reveal_strlit("[type] ");
    reveal_strlit("type");
    reveal_strlit("[wait] ");
    reveal_strlit("wait");
    reveal_strlit("[assert] ");
    reveal_strlit("[assert]");
    reveal_strlit("[assert] custom (");
    reveal_strlit("assert");
    reveal_strlit("[screenshot]");
    reveal_strlit("screenshot");
    reveal_strlit("[agent] ");
    reveal_strlit("agent");
    reveal_strlit("[mcp] ");
    reveal_strlit("mcp");
    let label = label_of(step);
    let kind = kind_of(step);
    let none = Seq::<char>::empty();
    assert(label.subrange(1, kind.len() as int + 1) =~= kind);
    match step {
        TestStep::Click { target, .. } => {
            text::lemma_middle("[click] "@, target@, none);
            assert("[click] "@ + target@ + none =~= label);
        },
        TestStep::Type { target, .. } => {
            text::lemma_middle("[type] "@, target@, none);
            assert("[type] "@ + target@ + none =~= label);
        },
        TestStep::Wait { target, .. } => {
            text::lemma_middle("[wait] "@, target@, none);
            assert("[wait] "@ + target@ + none =~= label);
        },
        TestStep::Navigate { url, .. } => {
            text::lemma_middle("[navigate] "@, url@, none);
            assert("[navigate] "@ + url@ + none =~= label);
        },
        TestStep::Agent { agent, .. } => {
            text::lemma_middle("[agent] "@, agent@, none);
            assert("[agent] "@ + agent@ + none =~= label);
        },
        TestStep::Mcp { server, tool, .. } => {
            text::lemma_middle("[mcp] "@, server@, ":"@ + tool@);
            assert("[mcp] "@ + server@ + (":"@ + tool@) =~= label);
            text::lemma_middle("[mcp] "@ + server@ + ":"@, tool@, none);
            assert("[mcp] "@ + server@ + ":"@ + tool@ + none =~= label);
        },
        TestStep::Assert { definition, .. } => {
            if let Some(d) = definition {
                text::lemma_middle("[assert] "@, d@, none);
                assert("[assert] "@ + d@ + none =~= label);
            }
        },
        _ => {},
    }
}

/// The LLM of an endpoint has the endpoint's own settings; what an endpoint
/// leaves open comes from the scenario, and how the LLM is to think always
/// does.
pub proof fn law_endpoints_keep_their_own_settings(
    r: LlmConfig,
    endpoint: ResolvedEndpoint,
    fallback: LlmConfig,
)
    requires
        is_endpoint_llm(r, endpoint, fallback),
    ensures
        endpoint.url@.len() > 0 ==> r.url@ == endpoint.url@,
        endpoint.url@.len() == 0 ==> r.url@ == fallback.url@,
        endpoint.model matches Some(m) ==> r.model@ == m@,
        endpoint.model is None ==> r.model@ == fallback.model@,
        endpoint.api_key is Some ==> r.api_key == endpoint.api_key,
        endpoint.api_key is None ==> r.api_key == fallback.api_key,
        endpoint.headers@.len() > 0 ==> r.headers@ == endpoint.headers@,
        endpoint.headers@.len() == 0 ==> r.headers@ == fallback.headers@,
        r.max_attempts == endpoint.max_attempts,
        r.provider == endpoint.provider && r.auth == endpoint.auth && r.aws == endpoint.aws,
        r.thinking == fallback.thinking && r.timeout_secs == fallback.timeout_secs,
{
}

/// The LLM of a scenario is the one that its file names; what the file leaves
/// open comes from the environment, and then from the defaults.
pub proof fn law_scenario_settings_win(llm: LlmConfig, config: ScenarioConfig, env: EnvSettings)
    requires
        is_scenario_llm(llm, config, env),
    ensures
        config.llm_url matches Some(u) ==> llm.url@ == u@,
        config.llm_model matches Some(m) ==> llm.model@ == m@,
        config.llm_model is None ==> (env.llm_model matches Some(m) ==> llm.model@ == m@),
        config.llm_model is None && env.llm_model is None ==> llm.model@ == "deepseek"@,
        config.llm_url is None && env.llm_url is None ==> llm.url@ == "http://localhost:8080"@,
        config.llm_api_key is Some ==> llm.api_key == config.llm_api_key,
        config.llm_api_key is None ==> llm.api_key == env.llm_api_key,
        config.timeout_secs matches Some(s) ==> llm.timeout_secs == s,
        config.timeout_secs is None ==> llm.timeout_secs == 60,
        env.llm_call_attempts is None ==> llm.max_attempts == 3,
        config.llm_headers@.len() > 0 ==> llm.headers@ == config.llm_headers@,
        llm.thinking == config.thinking,
{
    llm::law_base_urls_end_without_slash(env, Seq::empty());
}

/// The usage that a budget is held against is that of the running test, with
/// its totals.
pub proof fn law_test_usage_is_the_current_one(snapshot: UsageSnapshot, usage: UsageTracker)
    requires
        is_usage(snapshot, usage),
    ensures
        snapshot.endpoints@ == usage.current(),
        snapshot.total_calls == costs::sum_calls(usage.current()),
        snapshot.total_tokens == costs::sum_tokens(usage.current()),
        snapshot.total_cost == costs::cap(costs::sum_cost(usage.current())),
{
}

} // verus!
