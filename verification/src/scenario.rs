//! Scenario types for human-readable browser test case definitions.
//!
//! A scenario holds a configuration, reusable assertion definitions and test
//! groups made of ordered steps. Maps from names to values are lists of pairs
//! here, in the order in which they were read.
//!
//! Money is counted in whole units so that sums are exact: prices per 1M
//! tokens in microdollars (which are picodollars per token), everything else
//! in picodollars.
use vstd::prelude::*;
use crate::json;
use crate::llm;
use crate::named;

verus! {

/// An amount of money in picodollars (10^-12 USD).
pub type Picodollars = u128;

/// Named values: HTTP headers, commands, endpoints.
pub type Named<V> = Vec<(String, V)>;

/// Top-level scenario file.
#[derive(Debug, Clone)]
pub struct Scenario {
    /// Global configuration (overridable per test).
    pub config: ScenarioConfig,
    /// Reusable assertion definitions referenced by name in `assert` steps.
    pub definitions: Vec<AssertDefinition>,
    /// Ordered test groups to execute.
    pub test: Vec<TestGroup>,
}

/// Global scenario configuration with per-test overridable fields.
#[derive(Debug, Clone)]
pub struct ScenarioConfig {
    /// Base URL for relative navigation.
    pub base_url: Option<String>,
    /// LLM server base URL (deprecated; prefer endpoints).
    pub llm_url: Option<String>,
    /// LLM model name (deprecated; prefer endpoints).
    pub llm_model: Option<String>,
    /// LLM API key (Bearer token).
    pub llm_api_key: Option<String>,
    /// Custom HTTP headers.
    pub llm_headers: Named<String>,
    /// Run browser in headless mode.
    pub browser_headless: Option<bool>,
    /// HTTP / browser action timeout in seconds.
    pub timeout_secs: Option<u64>,
    /// Browser viewport width.
    pub viewport_width: Option<u32>,
    /// Browser viewport height.
    pub viewport_height: Option<u32>,
    /// Default URL every test auto-navigates to before running its steps.
    pub start_url: Option<String>,
    /// Whether to auto-navigate to `start_url` before test steps.
    pub auto_navigate: bool,
    /// LLM temperature, as the JSON number that is sent.
    pub temperature: serde_json::Value,
    /// Enable thinking/reasoning tokens; `None` sends no `thinking` key.
    pub thinking: Option<bool>,
    /// Provider-specific parameters merged into the request body.
    pub model_params: Named<serde_json::Value>,
    /// Named endpoints (LLM, MCP, A2A agents) with pricing.
    pub endpoints: Named<EndpointConfig>,
    /// Global and per-test budgets for cost/token/call limits.
    pub budgets: BudgetsConfig,
    /// MCP server exposure configuration.
    pub mcp_server: Option<McpServerConfig>,
    /// A2A agent server exposure configuration.
    pub a2a_server: Option<A2aServerConfig>,
    /// Whether to run the remaining steps of a test after a step fails.
    pub continue_on_failure: bool,
    /// Longest edge (px) of screenshots sent to a vision endpoint.
    pub screenshot_max_dimension: Option<u32>,
    /// Directory for failure artifacts (default `artifacts`).
    pub artifacts_dir: Option<String>,
    /// Viewports that every test of the scenario is expanded across.
    pub viewport_matrix: Option<ViewportMatrix>,
    /// Files that declare one group never run at the same time.
    pub concurrency_group: Option<String>,
}

impl ScenarioConfig {
    /// Nothing is set.
    pub open spec fn is_default(&self) -> bool {
        &&& self.base_url is None
        &&& self.llm_url is None
        &&& self.llm_model is None
        &&& self.llm_api_key is None
        &&& self.llm_headers@.len() == 0
        &&& self.browser_headless is None
        &&& self.timeout_secs is None
        &&& self.viewport_width is None
        &&& self.viewport_height is None
        &&& self.start_url is None
        &&& !self.auto_navigate
        &&& json::json_of(self.temperature) == llm::zero_temperature()
        &&& self.thinking is None
        &&& self.model_params@.len() == 0
        &&& self.endpoints@.len() == 0
        &&& self.budgets.global is None
        &&& self.budgets.per_test_default is None
        &&& self.mcp_server is None
        &&& self.a2a_server is None
        &&& !self.continue_on_failure
        &&& self.screenshot_max_dimension is None
        &&& self.artifacts_dir is None
        &&& self.viewport_matrix is None
        &&& self.concurrency_group is None
    }
}

impl Default for ScenarioConfig {
    fn default() -> (r: Self)
        ensures
            r.is_default(),
    {
        ScenarioConfig {
            base_url: None,
            llm_url: None,
            llm_model: None,
            llm_api_key: None,
            llm_headers: Vec::new(),
            browser_headless: None,
            timeout_secs: None,
            viewport_width: None,
            viewport_height: None,
            start_url: None,
            auto_navigate: false,
            temperature: llm::default_temperature(),
            thinking: None,
            model_params: Vec::new(),
            endpoints: Vec::new(),
            budgets: BudgetsConfig { global: None, per_test_default: None },
            mcp_server: None,
            a2a_server: None,
            continue_on_failure: false,
            screenshot_max_dimension: None,
            artifacts_dir: None,
            viewport_matrix: None,
            concurrency_group: None,
        }
    }
}

/// A list of named viewports a scenario is expanded across.
#[derive(Debug, Clone)]
pub struct ViewportMatrix {
    /// The viewport variants.
    pub viewports: Vec<ViewportDef>,
}

impl Default for ViewportMatrix {
    fn default() -> (r: Self)
        ensures
            r.viewports@.len() == 0,
    {
        ViewportMatrix { viewports: Vec::new() }
    }
}

/// One named viewport size in a matrix.
#[derive(Debug, Clone)]
pub struct ViewportDef {
    /// Variant name, appended to test names.
    pub name: String,
    /// Browser viewport width in pixels.
    pub width: u32,
    /// Browser viewport height in pixels.
    pub height: u32,
}

/// A named endpoint definition with pricing.
#[derive(Debug, Clone)]
pub struct EndpointConfig {
    /// Endpoint type: LLM, MCP or A2A.
    pub endpoint_type: EndpointType,
    /// Base URL for the endpoint.
    pub url: Option<String>,
    /// Model name (LLM endpoints only).
    pub model: Option<String>,
    /// API key / bearer token.
    pub api_key: Option<String>,
    /// Custom HTTP headers.
    pub headers: Named<String>,
    /// Pricing configuration.
    pub pricing: Option<PricingConfig>,
    /// Task types this endpoint serves by default.
    pub default_for: Vec<String>,
    /// Command to launch an MCP server subprocess (stdio transport).
    pub command: Option<String>,
    /// Arguments for the MCP server command.
    pub args: Vec<String>,
    /// Whether this LLM endpoint accepts images.
    pub vision: bool,
    /// Attempts per call; the default is [`crate::llm::default_llm_attempts`].
    pub max_attempts: Option<u32>,
    /// Endpoints to try after this one, in order.
    pub fallbacks: Vec<String>,
    /// Wire protocol of the endpoint.
    pub provider: Provider,
    /// Azure deployment name; the default is the model.
    pub deployment: Option<String>,
    /// Azure API version.
    pub api_version: Option<String>,
    /// How requests are authenticated.
    pub auth: AuthConfig,
    /// Headers whose values are the first output line of a command.
    pub header_commands: Named<String>,
    /// AWS credentials and region for Bedrock.
    pub aws: AwsConfig,
}

impl EndpointConfig {
    /// A free LLM endpoint of which nothing is set.
    pub open spec fn is_default(&self) -> bool {
        &&& self.endpoint_type == EndpointType::Llm
        &&& self.url is None
        &&& self.model is None
        &&& self.api_key is None
        &&& self.headers@.len() == 0
        &&& self.pricing is None
        &&& self.default_for@.len() == 0
        &&& self.command is None
        &&& self.args@.len() == 0
        &&& !self.vision
        &&& self.max_attempts is None
        &&& self.fallbacks@.len() == 0
        &&& self.provider == Provider::Openai
        &&& self.deployment is None
        &&& self.api_version is None
        &&& self.auth.is_default()
        &&& self.header_commands@.len() == 0
        &&& self.aws.is_default()
    }
}

impl Default for EndpointConfig {
    fn default() -> (r: Self)
        ensures
            r.is_default(),
    {
        EndpointConfig {
            endpoint_type: EndpointType::Llm,
            url: None,
            model: None,
            api_key: None,
            headers: Vec::new(),
            pricing: None,
            default_for: Vec::new(),
            command: None,
            args: Vec::new(),
            vision: false,
            max_attempts: None,
            fallbacks: Vec::new(),
            provider: Provider::Openai,
            deployment: None,
            api_version: None,
            auth: AuthConfig::default(),
            header_commands: Vec::new(),
            aws: AwsConfig::default(),
        }
    }
}

/// Type discriminator for endpoint configuration.
#[derive(Debug, Clone, Copy, PartialEq, Eq, Structural)]
pub enum EndpointType {
    /// OpenAI-compatible LLM API.
    Llm,
    /// Model Context Protocol server.
    Mcp,
    /// Agent-to-Agent protocol agent.
    A2a,
}

/// Wire protocol of an LLM endpoint.
#[derive(Debug, Clone, Copy, PartialEq, Eq, Structural)]
pub enum Provider {
    /// OpenAI-compatible chat completions.
    Openai,
    /// Azure OpenAI deployments.
    Azure,
    /// AWS Bedrock converse API.
    Bedrock,
}

/// How requests to an endpoint are authenticated.
#[derive(Debug, Clone, Copy, PartialEq, Eq, Structural)]
pub enum AuthMode {
    /// A static API key.
    ApiKey,
    /// A bearer token printed by a command.
    TokenCommand,
    /// Microsoft Entra client credentials.
    EntraClientCredentials,
    /// Microsoft Entra managed identity.
    EntraManagedIdentity,
}

/// Authentication settings of an endpoint.
#[derive(Debug, Clone)]
pub struct AuthConfig {
    /// Where the credential comes from.
    pub mode: AuthMode,
    /// Command whose first output line is the token.
    pub token_command: Option<String>,
    /// Entra tenant.
    pub tenant_id: Option<String>,
    /// Entra client.
    pub client_id: Option<String>,
    /// Entra client secret.
    pub client_secret: Option<String>,
    /// Token endpoint, in place of the default one.
    pub token_url: Option<String>,
    /// OAuth scope, in place of the default one.
    pub scope: Option<String>,
    /// Seconds for which command output is kept.
    pub cache_ttl_secs: Option<u64>,
    /// Header that carries the API key, in place of the default one.
    pub api_key_header: Option<String>,
}

impl AuthConfig {
    /// A static API key in the default header.
    pub open spec fn is_default(&self) -> bool {
        &&& self.mode == AuthMode::ApiKey
        &&& self.token_command is None
        &&& self.tenant_id is None
        &&& self.client_id is None
        &&& self.client_secret is None
        &&& self.token_url is None
        &&& self.scope is None
        &&& self.cache_ttl_secs is None
        &&& self.api_key_header is None
    }

    /// A copy of the settings.
    pub fn copy(&self) -> (r: Self)
        ensures
            r == *self,
    {
        AuthConfig {
            mode: self.mode,
            token_command: named::copy_option(&self.token_command),
            tenant_id: named::copy_option(&self.tenant_id),
            client_id: named::copy_option(&self.client_id),
            client_secret: named::copy_option(&self.client_secret),
            token_url: named::copy_option(&self.token_url),
            scope: named::copy_option(&self.scope),
            cache_ttl_secs: self.cache_ttl_secs,
            api_key_header: named::copy_option(&self.api_key_header),
        }
    }
}

impl Default for AuthConfig {
    fn default() -> (r: Self)
        ensures
            r.is_default(),
    {
        AuthConfig {
            mode: AuthMode::ApiKey,
            token_command: None,
            tenant_id: None,
            client_id: None,
            client_secret: None,
            token_url: None,
            scope: None,
            cache_ttl_secs: None,
            api_key_header: None,
        }
    }
}

/// AWS settings of a Bedrock endpoint.
#[derive(Debug, Clone)]
pub struct AwsConfig {
    /// Named profile.
    pub profile: Option<String>,
    /// Region.
    pub region: Option<String>,
    /// Static access key.
    pub access_key_id: Option<String>,
    /// Static secret key.
    pub secret_access_key: Option<String>,
    /// Static session token.
    pub session_token: Option<String>,
}

impl AwsConfig {
    /// Nothing is set.
    pub open spec fn is_default(&self) -> bool {
        &&& self.profile is None
        &&& self.region is None
        &&& self.access_key_id is None
        &&& self.secret_access_key is None
        &&& self.session_token is None
    }

    /// A copy of the settings.
    pub fn copy(&self) -> (r: Self)
        ensures
            r == *self,
    {
        AwsConfig {
            profile: named::copy_option(&self.profile),
            region: named::copy_option(&self.region),
            access_key_id: named::copy_option(&self.access_key_id),
            secret_access_key: named::copy_option(&self.secret_access_key),
            session_token: named::copy_option(&self.session_token),
        }
    }
}

impl Default for AwsConfig {
    fn default() -> (r: Self)
        ensures
            r.is_default(),
    {
        AwsConfig {
            profile: None,
            region: None,
            access_key_id: None,
            secret_access_key: None,
            session_token: None,
        }
    }
}

impl Default for EndpointType {
    fn default() -> (r: Self)
        ensures
            r == EndpointType::Llm,
    {
        EndpointType::Llm
    }
}

impl Default for Provider {
    fn default() -> (r: Self)
        ensures
            r == Provider::Openai,
    {
        Provider::Openai
    }
}

impl Default for AuthMode {
    fn default() -> (r: Self)
        ensures
            r == AuthMode::ApiKey,
    {
        AuthMode::ApiKey
    }
}

/// Pricing configuration for an endpoint.
#[derive(Debug, Clone, Copy)]
pub struct PricingConfig {
    /// Microdollars per 1M input tokens (picodollars per token).
    pub input_per_1m_tokens: u64,
    /// Microdollars per 1M output tokens (picodollars per token).
    pub output_per_1m_tokens: u64,
    /// Picodollars per call, used for MCP/agent endpoints.
    pub per_call: Picodollars,
}

impl Default for PricingConfig {
    fn default() -> (r: Self)
        ensures
            r.input_per_1m_tokens == 0,
            r.output_per_1m_tokens == 0,
            r.per_call == 0,
    {
        PricingConfig { input_per_1m_tokens: 0, output_per_1m_tokens: 0, per_call: 0 }
    }
}

/// Budget limits for test execution.
#[derive(Debug, Clone, Copy)]
pub struct BudgetsConfig {
    /// Global budget across all tests in the scenario.
    pub global: Option<BudgetDef>,
    /// Default per-test budget. Individual tests can override.
    pub per_test_default: Option<BudgetDef>,
}

impl Default for BudgetsConfig {
    fn default() -> (r: Self)
        ensures
            r.global is None,
            r.per_test_default is None,
    {
        BudgetsConfig { global: None, per_test_default: None }
    }
}

/// A budget definition with limits and enforcement mode.
#[derive(Debug, Clone, Copy)]
pub struct BudgetDef {
    /// Maximum cost in picodollars.
    pub max_cost: Option<Picodollars>,
    /// Maximum total tokens (input + output).
    pub max_tokens: Option<u64>,
    /// Maximum number of calls (LLM, MCP, agent combined).
    pub max_calls: Option<u64>,
    /// Enforcement mode; the default is hard.
    pub enforcement: Option<BudgetEnforcement>,
}

/// Budget enforcement strategy.
#[derive(Debug, Clone, Copy, PartialEq, Eq, Structural)]
pub enum BudgetEnforcement {
    /// Abort the test or run when budget is exceeded.
    Hard,
    /// Log a warning but continue execution.
    Soft,
}

/// MCP server exposure configuration.
#[derive(Debug, Clone, Copy)]
pub struct McpServerConfig {
    /// Whether to enable the embedded MCP server.
    pub enabled: bool,
    /// Port to listen on.
    pub port: u16,
}

/// A2A agent server exposure configuration.
#[derive(Debug, Clone, Copy)]
pub struct A2aServerConfig {
    /// Whether to enable the embedded A2A agent server.
    pub enabled: bool,
    /// Port to listen on.
    pub port: u16,
}

/// The port of the embedded MCP server when none is set.
pub fn default_mcp_port() -> (r: u16)
    ensures
        r == 3000,
{
    3000
}

/// The port of the embedded A2A server when none is set.
pub fn default_a2a_port() -> (r: u16)
    ensures
        r == 3100,
{
    3100
}

/// Tests navigate to their start page unless told otherwise.
pub fn default_auto_navigate() -> (r: bool)
    ensures
        r,
{
    true
}

/// Reusable assertion definition referenced by name from `assert` steps.
///
/// A definition names a built-in preset, supplies an LLM `prompt`, or defines
/// a custom preset by `system` and `user_template`, whose template variables
/// are `{url}`, `{title}`, `{content}`, `{expected_text}` and `{description}`.
#[derive(Debug, Clone)]
pub struct AssertDefinition {
    /// Unique name used to reference this definition from steps.
    pub name: String,
    /// Predefined assertion preset name.
    pub preset: Option<String>,
    /// Custom LLM prompt for assertion evaluation.
    pub prompt: Option<String>,
    /// System prompt for a custom preset.
    pub system: Option<String>,
    /// User template for a custom preset.
    pub user_template: Option<String>,
    /// Expected text of the `text_visible` presets and of templates.
    pub assert_text: Option<String>,
    /// Agent endpoint to call for this assertion.
    pub agent: Option<String>,
    /// Agent task template for this assertion.
    pub task_template: Option<String>,
}

/// A group of steps that form a single test scenario.
#[derive(Debug, Clone)]
pub struct TestGroup {
    /// Human-readable test name.
    pub name: String,
    /// Override the global `start_url` for this test.
    pub start_url: Option<String>,
    /// Override the global `auto_navigate` for this test.
    pub auto_navigate: Option<bool>,
    /// Override the global `base_url` for this test.
    pub base_url: Option<String>,
    /// Override the global `timeout_secs` for this test.
    pub timeout_secs: Option<u64>,
    /// Override the global `browser_headless` for this test.
    pub browser_headless: Option<bool>,
    /// Override the global viewport width for this test.
    pub viewport_width: Option<u32>,
    /// Override the global viewport height for this test.
    pub viewport_height: Option<u32>,
    /// Per-test budget override.
    pub budget: Option<BudgetDef>,
    /// Endpoint to use for all steps in this test.
    pub endpoint: Option<String>,
    /// Ordered steps to execute.
    pub steps: Vec<TestStep>,
}

/// A single step in a test.
#[allow(inconsistent_fields)]
#[derive(Debug, Clone)]
pub enum TestStep {
    /// Navigate the browser to a URL.
    Navigate {
        /// URL to navigate to (absolute, or relative to the base URL).
        url: String,
        /// Milliseconds to wait after navigation completes.
        wait_after_ms: Option<u64>,
    },
    /// Fill in the login form if there is one.
    Login {
        /// Login page; the default is `/auth/login`.
        url: Option<String>,
        /// Account to log in as.
        email: String,
        /// Its password.
        password: String,
        /// Milliseconds to wait after the login.
        wait_after_ms: Option<u64>,
    },
    /// Click an element described in natural language.
    Click {
        /// Natural language description of the element.
        target: String,
        /// Explicit CSS selector (bypasses LLM resolution).
        selector: Option<String>,
        /// Milliseconds to wait after the click.
        wait_after_ms: Option<u64>,
        /// Endpoint to use for LLM element targeting.
        endpoint: Option<String>,
        /// Skip instead of fail when the target element is absent.
        idempotent: bool,
    },
    /// Type text into an input element.
    Type {
        /// Natural language description of the target input element.
        target: String,
        /// Text to type into the element.
        text: String,
        /// Explicit CSS selector (bypasses LLM resolution).
        selector: Option<String>,
        /// Milliseconds to wait after typing.
        wait_after_ms: Option<u64>,
        /// Endpoint to use for LLM element targeting.
        endpoint: Option<String>,
        /// Skip instead of fail when the target element is absent.
        idempotent: bool,
    },
    /// Wait for an element to appear on the page.
    Wait {
        /// Natural language description of the element to wait for.
        target: String,
        /// Explicit CSS selector (bypasses LLM resolution).
        selector: Option<String>,
        /// Wait until the page's visible text contains this; with a selector
        /// both must hold.
        text: Option<String>,
        /// Maximum milliseconds to wait (default: 10000).
        timeout_ms: Option<u64>,
        /// Endpoint to use for LLM element targeting.
        endpoint: Option<String>,
        /// Skip instead of fail when the condition never becomes true.
        idempotent: bool,
    },
    /// Evaluate an assertion against the current page content.
    Assert {
        /// Reference to a named definition.
        definition: Option<String>,
        /// Inline predefined assertion preset.
        preset: Option<String>,
        /// Inline custom LLM prompt for assertion evaluation.
        prompt: Option<String>,
        /// Text that the `text_visible` preset checks for.
        assert_text: Option<String>,
        /// Endpoint to use for this assertion's LLM call.
        endpoint: Option<String>,
        /// Attach a screenshot of the current viewport.
        screenshot: bool,
    },
    /// Take a screenshot of the current page.
    Screenshot {
        /// File to save the screenshot in (default: `screenshot.png`).
        path: Option<String>,
    },
    /// Call an A2A agent with a task.
    Agent {
        /// Name of the agent endpoint to call.
        agent: String,
        /// Task description / prompt for the agent.
        task: String,
        /// Definition name with a task template.
        definition: Option<String>,
    },
    /// Call an MCP server tool.
    Mcp {
        /// Name of the MCP server endpoint.
        server: String,
        /// Tool name to invoke on the server.
        tool: String,
        /// Tool arguments as JSON.
        args: Option<serde_json::Value>,
    },
}

/// Two steps are the same, arguments compared by what they hold.
pub open spec fn same_step(a: TestStep, b: TestStep) -> bool {
    match (a, b) {
        (
            TestStep::Mcp { server: s1, tool: t1, args: a1 },
            TestStep::Mcp { server: s2, tool: t2, args: a2 },
        ) => {
            &&& s1 == s2
            &&& t1 == t2
            &&& match (a1, a2) {
                (Some(x), Some(y)) => json::json_of(x) == json::json_of(y),
                (None, None) => true,
                _ => false,
            }
        },
        _ => a == b,
    }
}

/// Two lists of steps are the same.
pub open spec fn same_steps(a: Seq<TestStep>, b: Seq<TestStep>) -> bool {
    &&& a.len() == b.len()
    &&& forall|i: int| 0 <= i < a.len() ==> same_step(#[trigger] a[i], b[i])
}

/// A copy of a step.
pub fn copy_step(step: &TestStep) -> (r: TestStep)
    ensures
        same_step(r, *step),
{
    match step {
        TestStep::Navigate { url, wait_after_ms } => TestStep::Navigate {
            url: url.clone(),
            wait_after_ms: *wait_after_ms,
        },
        TestStep::Login { url, email, password, wait_after_ms } => TestStep::Login {
            url: named::copy_option(url),
            email: email.clone(),
            password: password.clone(),
            wait_after_ms: *wait_after_ms,
        },
        TestStep::Click { target, selector, wait_after_ms, endpoint, idempotent } => TestStep::Click {
            target: target.clone(),
            selector: named::copy_option(selector),
            wait_after_ms: *wait_after_ms,
            endpoint: named::copy_option(endpoint),
            idempotent: *idempotent,
        },
        TestStep::Type { target, text, selector, wait_after_ms, endpoint, idempotent } => {
            TestStep::Type {
                target: target.clone(),
                text: text.clone(),
                selector: named::copy_option(selector),
                wait_after_ms: *wait_after_ms,
                endpoint: named::copy_option(endpoint),
                idempotent: *idempotent,
            }
        },
        TestStep::Wait { target, selector, text, timeout_ms, endpoint, idempotent } => {
            TestStep::Wait {
                target: target.clone(),
                selector: named::copy_option(selector),
                text: named::copy_option(text),
                timeout_ms: *timeout_ms,
                endpoint: named::copy_option(endpoint),
                idempotent: *idempotent,
            }
        },
        TestStep::Assert { definition, preset, prompt, assert_text, endpoint, screenshot } => {
            TestStep::Assert {
                definition: named::copy_option(definition),
                preset: named::copy_option(preset),
                prompt: named::copy_option(prompt),
                assert_text: named::copy_option(assert_text),
                endpoint: named::copy_option(endpoint),
                screenshot: *screenshot,
            }
        },
        TestStep::Screenshot { path } => TestStep::Screenshot { path: named::copy_option(path) },
        TestStep::Agent { agent, task, definition } => TestStep::Agent {
            agent: agent.clone(),
            task: task.clone(),
            definition: named::copy_option(definition),
        },
        TestStep::Mcp { server, tool, args } => TestStep::Mcp {
            server: server.clone(),
            tool: tool.clone(),
            args: match args {
                Some(a) => Some(a.clone()),
                None => None,
            },
        },
    }
}

/// A copy of a list of steps.
pub fn copy_steps(steps: &Vec<TestStep>) -> (r: Vec<TestStep>)
    ensures
        same_steps(r@, steps@),
{
    let mut r: Vec<TestStep> = Vec::new();
    let mut i: usize = 0;
    while i < steps.len()
        invariant
            i <= steps@.len(),
            r@.len() == i,
            forall|k: int| 0 <= k < i ==> same_step(#[trigger] r@[k], steps@[k]),
        decreases steps@.len() - i,
    {
        r.push(copy_step(&steps[i]));
        i += 1;
    }
    r
}

} // verus!
