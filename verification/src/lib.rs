//! LLM-driven browser test framework.
//!
//! The logic of browser-based test scenarios, each decision with its contract:
//! - what a step asks of the browser, and what its answer means
//! - natural language element targeting and assertions by an LLM
//! - requests and replies of LLM providers, A2A agents and MCP servers
//! - cost tracking, token counting, and budget enforcement
//! - routing, retries and fallbacks between endpoints
//! - reports, traces, redaction of secrets, and parallel runs
//!
//! The library performs no I/O. Where a decision needs the outside world, a
//! function returns what to do next, and is called again with the outcome.

/// A2A agent protocol client.
pub mod a2a;
/// A2A agent server for accepting agent tasks.
pub mod a2a_server;
/// Assertion steps: presets, prompts, agents and tools.
pub mod assertions;
/// Bearer tokens: commands, OAuth2 and their cache.
pub mod auth;
/// Base64 texts.
pub mod base64_text;
/// The Bedrock Converse API: payloads, signatures and replies.
pub mod bedrock;
/// Budget tracking and enforcement.
pub mod budgets;
/// The command line: flags, overrides and the header of a run.
pub mod cli;
/// Cost calculation, usage tracking, and pricing.
pub mod costs;
/// Failure diagnostics — page state and artifact names.
pub mod diagnostics;
/// Endpoint registry and routing resolver.
pub mod endpoints;
/// What a run reports as it goes.
pub mod events;
/// Steps from their first action to their result.
pub mod execution;
/// JSON documents.
pub mod json;
/// Requests to LLM providers, their replies, and retries.
pub mod llm;
/// MCP client for connecting to external MCP servers.
pub mod mcp_client;
/// Values by name.
pub mod named;
/// Numbers as they are printed.
pub mod numbers;
/// Scenario files side by side: launches, scheduling and merging.
pub mod parallel;
/// Redaction of secrets.
pub mod redact;
/// Console, JUnit, GitHub and cost reports.
pub mod reporting;
/// Step-by-step scenario executor.
pub mod runner;
/// Declarative test scenario types.
pub mod scenario;
/// CSS selector sanitization for LLM-generated selectors.
pub mod selectors;
/// Navigation, click, type, wait, login and screenshot steps.
pub mod steps;
/// Natural language element targeting.
pub mod targeting;
/// Texts.
pub mod text;
/// Trace documents.
pub mod trace;
/// Vision support — screenshot tiles for visual asserts.
pub mod vision;

pub use costs::LlmResponse;
pub use costs::LlmUsage;
pub use llm::LlmConfig;
pub use scenario::{AuthConfig, AuthMode, AwsConfig, Provider};
pub use llm::{base_url, browser_headless, llm_base_url, llm_model, parse_headers_env};
pub use text::truncate;
