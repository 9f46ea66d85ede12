//! What the command line means: flags that are texts, the overrides of a
//! scenario's `[config]`, the viewport matrix and the header of a run.
use vstd::prelude::*;
use vstd::string::StringExecFns;
use crate::json;
use crate::json::Json;
use crate::llm;
use crate::named;
use crate::numbers;
use crate::reporting::ColorMode;
use crate::scenario;
use crate::scenario::{
    A2aServerConfig, BudgetDef, BudgetEnforcement, BudgetsConfig, EndpointConfig, EndpointType,
    Named, Picodollars, ScenarioConfig, TestGroup, ViewportDef,
};
use crate::text;

verus! {

/// The texts before and after the first `c`, if there is one.
pub open spec fn split_at_char(s: Seq<char>, c: char) -> Option<(Seq<char>, Seq<char>)> {
    let i = text::index_of(s, c);
    if i < s.len() {
        Some((s.take(i), s.skip(i + 1)))
    } else {
        None
    }
}

/// The trimmed texts before and after the first `c`, if there is one.
fn split_trimmed(s: &str, c: char) -> (r: Option<(String, String)>)
    ensures
        match r {
            Some((k, v)) => split_at_char(s@, c) matches Some((a, b)) && k@ == text::trimmed(a)
                && v@ == text::trimmed(b),
            None => split_at_char(s@, c) is None,
        },
{
    let chars = text::chars_of(s);
    let i: usize = text::find_char(&chars, c);
    if i >= chars.len() {
        return None;
    }
    let a = text::text_between(&chars, 0, i);
    assert(a@ =~= s@.take(i as int));
    let b = text::text_between(&chars, i + 1, chars.len());
    assert(b@ =~= s@.skip(i + 1));
    Some((text::trim_text(a.as_str()), text::trim_text(b.as_str())))
}

/// Parses "Name:Value" strings from `--llm-header`.
///
/// # Errors
///
/// Returns a description when there is no colon.
pub fn parse_header(s: &str) -> (r: Result<(String, String), String>)
    ensures
        match split_at_char(s@, ':') {
            Some((a, b)) => r matches Ok((k, v)) && k@ == text::trimmed(a) && v@ == text::trimmed(b),
            None => r matches Err(e) && e@ == "header must be 'Name:Value', got '"@ + s@ + "'"@,
        },
{
    match split_trimmed(s, ':') {
        Some(pair) => Ok(pair),
        None => {
            let mut e = "header must be 'Name:Value', got '".to_owned();
            e.append(s);
            e.append("'");
            Err(e)
        },
    }
}

/// Blank settings count as unset.
pub open spec fn set(v: Option<String>) -> Option<String> {
    if v is Some && text::trimmed(v->0@).len() > 0 {
        v
    } else {
        None
    }
}

/// Treats `None`/empty strings (e.g. an interpolated but unset CI var) as
/// `None`, so `${{ vars.X || '' }}` never becomes a phantom endpoint.
pub fn nonempty(v: Option<String>) -> (r: Option<String>)
    ensures
        r == set(v),
{
    match v {
        Some(s) => if text::trim_text(s.as_str()).as_str().is_empty() {
            None
        } else {
            Some(s)
        },
        None => None,
    }
}

/// What a model parameter means: the JSON that it is, or else its text.
pub open spec fn param_json(value: Seq<char>) -> Json {
    match json::parsed_json(value) {
        Ok(j) => j,
        Err(_) => Json::Str(value),
    }
}

/// Parses "key=value" strings from `--model-param`. JSON values (quoted
/// strings, numbers, booleans) are parsed as-is; bare words become JSON
/// strings.
///
/// # Errors
///
/// Returns a description when there is no equals sign.
pub fn parse_model_param(s: &str) -> (r: Result<(String, serde_json::Value), String>)
    ensures
        match split_at_char(s@, '=') {
            Some((a, b)) => r matches Ok((k, v)) && k@ == text::trimmed(a) && json::json_of(v)
                == param_json(text::trimmed(b)),
            None => r matches Err(e) && e@ == "model param must be 'key=value', got '"@ + s@ + "'"@,
        },
{
    match split_trimmed(s, '=') {
        Some((key, shown)) => {
            let value = match json::parse_json(shown.as_str()) {
                Ok(v) => v,
                Err(_) => json::json_string(shown.as_str()),
            };
            Ok((key, value))
        },
        None => {
            let mut e = "model param must be 'key=value', got '".to_owned();
            e.append(s);
            e.append("'");
            Err(e)
        },
    }
}

/// What `--color` means.
pub fn color_mode(s: &str) -> (r: ColorMode)
    ensures
        ({
            let lower = text::lower_ascii(s@);
            r == if lower == "always"@ || lower == "force"@ {
                ColorMode::Always
            } else if lower == "never"@ || lower == "none"@ {
                ColorMode::Never
            } else {
                ColorMode::Auto
            }
        }),
{
    let lower = text::ascii_lowercase(s);
    if text::same_text(lower.as_str(), "always") || text::same_text(lower.as_str(), "force") {
        ColorMode::Always
    } else if text::same_text(lower.as_str(), "never") || text::same_text(lower.as_str(), "none") {
        ColorMode::Never
    } else {
        ColorMode::Auto
    }
}

/// The CLI flags that override a scenario's `[config]`, applied to every
/// scenario file before it runs (so a batch shares the same overrides). A
/// flag that was not given is `None`, empty or off.
pub struct RunOverrides {
    /// `--base-url`.
    pub base_url: Option<String>,
    /// `--llm-url`.
    pub llm_url: Option<String>,
    /// `--llm-model`.
    pub llm_model: Option<String>,
    /// `--llm-api-key`.
    pub llm_api_key: Option<String>,
    /// `--llm-fallback-url`.
    pub llm_fallback_url: Option<String>,
    /// `--llm-fallback-model`.
    pub llm_fallback_model: Option<String>,
    /// `--llm-fallback-api-key`.
    pub llm_fallback_api_key: Option<String>,
    /// `--llm-header`.
    pub llm_headers: Named<String>,
    /// `--model-param`.
    pub model_params: Named<serde_json::Value>,
    /// `--headless`.
    pub headless: Option<bool>,
    /// `--timeout`.
    pub timeout: Option<u64>,
    /// `--viewport-width`.
    pub viewport_width: Option<u32>,
    /// `--viewport-height`.
    pub viewport_height: Option<u32>,
    /// `--start-url`.
    pub start_url: Option<String>,
    /// `--max-cost`.
    pub max_cost: Option<Picodollars>,
    /// `--max-tokens`.
    pub max_tokens: Option<u64>,
    /// `--budget-enforcement`.
    pub budget_enforcement: Option<String>,
    /// `--agent-port`.
    pub agent_port: Option<u16>,
    /// `--artifacts-dir`.
    pub artifacts_dir: Option<String>,
    /// `--continue-on-failure`.
    pub continue_on_failure: bool,
}

/// The flag where it was given, else the setting.
pub open spec fn flag_or<T>(flag: Option<T>, setting: Option<T>) -> Option<T> {
    if flag is Some {
        flag
    } else {
        setting
    }
}

/// The flag where it was given, else the setting, else a default.
pub open spec fn flag_or_default<T>(flag: Option<T>, setting: Option<T>, default: T) -> T {
    if flag is Some {
        flag->0
    } else if setting is Some {
        setting->0
    } else {
        default
    }
}

/// The position of a name among pairs.
pub open spec fn pair_index<V>(s: Seq<(Seq<char>, V)>, name: Seq<char>) -> Option<int>
    decreases s.len(),
{
    if s.len() == 0 {
        None
    } else if s[0].0 == name {
        Some(0)
    } else {
        match pair_index(s.skip(1), name) {
            Some(i) => Some(i + 1),
            None => None,
        }
    }
}

/// The pairs with one more: it replaces the one of its name.
pub open spec fn with_pair<V>(s: Seq<(Seq<char>, V)>, pair: (Seq<char>, V)) -> Seq<(Seq<char>, V)> {
    match pair_index(s, pair.0) {
        Some(i) => s.update(i, pair),
        None => s.push(pair),
    }
}

/// The pairs with more, one after the other.
pub open spec fn with_pairs<V>(s: Seq<(Seq<char>, V)>, more: Seq<(Seq<char>, V)>) -> Seq<
    (Seq<char>, V),
>
    decreases more.len(),
{
    if more.len() == 0 {
        s
    } else {
        with_pair(with_pairs(s, more.drop_last()), more.last())
    }
}

/// The position among named values is that among their pairs.
proof fn lemma_pair_index<V, W>(list: Seq<(String, V)>, pairs: Seq<(Seq<char>, W)>, name: Seq<char>, i: int)
    requires
        0 <= i <= list.len(),
        pairs.len() == list.len(),
        forall|k: int| 0 <= k < list.len() ==> (#[trigger] pairs[k]).0 == list[k].0@,
    ensures
        match named::position_from(list, name, i) {
            Some(p) => pair_index(pairs.skip(i), name) == Some(p - i),
            None => pair_index(pairs.skip(i), name) is None,
        },
    decreases list.len() - i,
{
    if i < list.len() {
        lemma_pair_index(list, pairs, name, i + 1);
        assert(pairs.skip(i).skip(1) =~= pairs.skip(i + 1));
        assert(pairs.skip(i)[0] == pairs[i]);
    }
}

/// Sets headers, one after the other.
fn set_headers(list: &mut Named<String>, more: &Named<String>)
    ensures
        llm::header_pairs(final(list)@) == with_pairs(
            llm::header_pairs(old(list)@),
            llm::header_pairs(more@),
        ),
{
    let ghost start = llm::header_pairs(list@);
    let ghost all = llm::header_pairs(more@);
    let mut i: usize = 0;
    assert(all.take(0) =~= Seq::<(Seq<char>, Seq<char>)>::empty());
    while i < more.len()
        invariant
            all == llm::header_pairs(more@),
            i <= more@.len(),
            llm::header_pairs(list@) == with_pairs(start, all.take(i as int)),
        decreases more@.len() - i,
    {
        let ghost before = llm::header_pairs(list@);
        let ghost pair = all[i as int];
        proof {
            assert(all.take(i + 1).drop_last() =~= all.take(i as int));
            lemma_pair_index(list@, before, pair.0, 0);
            assert(before.skip(0) =~= before);
            named::lemma_position(list@, pair.0);
        }
        let name = more[i].0.clone();
        let value = more[i].1.clone();
        match named::find_name(list, name.as_str()) {
            Some(k) => {
                list.set(k, (name, value));
                assert(llm::header_pairs(list@) =~= before.update(k as int, pair));
            },
            None => {
                list.push((name, value));
                assert(llm::header_pairs(list@) =~= before.push(pair));
            },
        }
        i += 1;
    }
    assert(all.take(i as int) =~= all);
}

/// Sets model parameters, one after the other.
fn set_params(list: &mut Named<serde_json::Value>, more: &Named<serde_json::Value>)
    ensures
        json::entries_of(final(list)@) == with_pairs(
            json::entries_of(old(list)@),
            json::entries_of(more@),
        ),
{
    let ghost start = json::entries_of(list@);
    let ghost all = json::entries_of(more@);
    let mut i: usize = 0;
    assert(all.take(0) =~= Seq::<(Seq<char>, Json)>::empty());
    while i < more.len()
        invariant
            all == json::entries_of(more@),
            i <= more@.len(),
            json::entries_of(list@) == with_pairs(start, all.take(i as int)),
        decreases more@.len() - i,
    {
        let ghost before = json::entries_of(list@);
        let ghost pair = all[i as int];
        proof {
            assert(all.take(i + 1).drop_last() =~= all.take(i as int));
            lemma_pair_index(list@, before, pair.0, 0);
            assert(before.skip(0) =~= before);
            named::lemma_position(list@, pair.0);
        }
        let name = more[i].0.clone();
        let value = more[i].1.clone();
        match named::find_name(list, name.as_str()) {
            Some(k) => {
                list.set(k, (name, value));
                assert(json::entries_of(list@) =~= before.update(k as int, pair));
            },
            None => {
                list.push((name, value));
                assert(json::entries_of(list@) =~= before.push(pair));
            },
        }
        i += 1;
    }
    assert(all.take(i as int) =~= all);
}

/// The flag where it was given, else the setting.
fn text_flag(flag: &Option<String>, setting: Option<String>) -> (r: Option<String>)
    ensures
        r == flag_or(*flag, setting),
{
    match flag {
        Some(f) => Some(f.clone()),
        None => setting,
    }
}

/// The endpoints for a fallback URL: the configured LLM, and behind it the
/// fallback.
pub open spec fn is_fallback_table(
    table: Seq<(String, EndpointConfig)>,
    url: Option<String>,
    model: Option<String>,
    api_key: Option<String>,
    headers: Seq<(String, String)>,
    fallback_url: String,
    o: RunOverrides,
) -> bool {
    &&& table.len() == 2
    &&& table[0].0@ == "default"@
    &&& {
        let ep = table[0].1;
        &&& ep.endpoint_type == EndpointType::Llm
        &&& ep.url == url
        &&& ep.model == model
        &&& ep.api_key == api_key
        &&& ep.headers@ == headers
        &&& text::views(ep.default_for@) == seq!["targeting"@, "assertion"@]
        &&& text::views(ep.fallbacks@) == seq!["fallback"@]
        &&& is_bare(ep)
    }
    &&& table[1].0@ == "fallback"@
    &&& {
        let ep = table[1].1;
        &&& ep.endpoint_type == EndpointType::Llm
        &&& ep.url == Some(fallback_url)
        &&& ep.model == set(o.llm_fallback_model)
        &&& ep.api_key == set(o.llm_fallback_api_key)
        &&& ep.headers@.len() == 0
        &&& ep.default_for@.len() == 0
        &&& ep.fallbacks@.len() == 0
        &&& is_bare(ep)
    }
}

/// The rest of an endpoint is not set.
pub open spec fn is_bare(ep: EndpointConfig) -> bool {
    &&& ep.pricing is None
    &&& ep.command is None
    &&& ep.args@.len() == 0
    &&& !ep.vision
    &&& ep.max_attempts is None
    &&& ep.provider == scenario::Provider::Openai
    &&& ep.deployment is None
    &&& ep.api_version is None
    &&& ep.auth.is_default()
    &&& ep.header_commands@.len() == 0
    &&& ep.aws.is_default()
}

/// The endpoints for a fallback URL.
fn fallback_table(
    url: &Option<String>,
    model: &Option<String>,
    api_key: &Option<String>,
    headers: &Named<String>,
    fallback_url: String,
    o: &RunOverrides,
) -> (r: Named<EndpointConfig>)
    ensures
        is_fallback_table(r@, *url, *model, *api_key, headers@, fallback_url, *o),
{
    let primary = EndpointConfig {
        endpoint_type: EndpointType::Llm,
        url: named::copy_option(url),
        model: named::copy_option(model),
        api_key: named::copy_option(api_key),
        headers: named::copy_named(headers),
        default_for: vec!["targeting".to_owned(), "assertion".to_owned()],
        fallbacks: vec!["fallback".to_owned()],
        ..EndpointConfig::default()
    };
    assert(text::views(primary.default_for@) =~= seq!["targeting"@, "assertion"@]);
    assert(text::views(primary.fallbacks@) =~= seq!["fallback"@]);
    let second = EndpointConfig {
        endpoint_type: EndpointType::Llm,
        url: Some(fallback_url),
        model: nonempty(named::copy_option(&o.llm_fallback_model)),
        api_key: nonempty(named::copy_option(&o.llm_fallback_api_key)),
        ..EndpointConfig::default()
    };
    vec![("default".to_owned(), primary), ("fallback".to_owned(), second)]
}

/// The enforcement that `--budget-enforcement` asks for, by its lower-case
/// form.
pub open spec fn enforcement_in(lower: Seq<char>) -> BudgetEnforcement {
    if lower == "soft"@ {
        BudgetEnforcement::Soft
    } else {
        BudgetEnforcement::Hard
    }
}

/// The enforcement that the lower-case form of `--budget-enforcement` asks
/// for: `soft`, or else hard.
pub fn enforcement_named(lower: &str) -> (r: BudgetEnforcement)
    ensures
        r == enforcement_in(lower@),
{
    if text::same_text(lower, "soft") {
        BudgetEnforcement::Soft
    } else {
        BudgetEnforcement::Hard
    }
}

/// The enforcement that the flags ask for.
pub open spec fn enforcement_flag(o: RunOverrides) -> Option<BudgetEnforcement> {
    match o.budget_enforcement {
        Some(e) => Some(enforcement_in(text::lowered(e@))),
        None => None,
    }
}

/// The budgets after the flags: those that were given replace the limits of
/// the global budget.
pub open spec fn budgets_after(
    budgets: BudgetsConfig,
    max_cost: Option<Picodollars>,
    max_tokens: Option<u64>,
    enforcement: Option<BudgetEnforcement>,
) -> BudgetsConfig {
    if max_cost is None && max_tokens is None && enforcement is None {
        budgets
    } else {
        let global = match budgets.global {
            Some(g) => g,
            None => BudgetDef {
                max_cost: None,
                max_tokens: None,
                max_calls: None,
                enforcement: None,
            },
        };
        BudgetsConfig {
            global: Some(
                BudgetDef {
                    max_cost: flag_or(max_cost, global.max_cost),
                    max_tokens: flag_or(max_tokens, global.max_tokens),
                    max_calls: global.max_calls,
                    enforcement: flag_or(enforcement, global.enforcement),
                },
            ),
            per_test_default: budgets.per_test_default,
        }
    }
}

/// Applies the budget flags.
pub fn override_budgets(
    budgets: BudgetsConfig,
    max_cost: Option<Picodollars>,
    max_tokens: Option<u64>,
    enforcement: Option<BudgetEnforcement>,
) -> (r: BudgetsConfig)
    ensures
        r == budgets_after(budgets, max_cost, max_tokens, enforcement),
{
    if max_cost.is_none() && max_tokens.is_none() && enforcement.is_none() {
        return budgets;
    }
    let mut global = match budgets.global {
        Some(g) => g,
        None => BudgetDef {
            max_cost: None,
            max_tokens: None,
            max_calls: None,
            enforcement: None,
        },
    };
    if max_cost.is_some() {
        global.max_cost = max_cost;
    }
    if max_tokens.is_some() {
        global.max_tokens = max_tokens;
    }
    if enforcement.is_some() {
        global.enforcement = enforcement;
    }
    BudgetsConfig { global: Some(global), per_test_default: budgets.per_test_default }
}

/// What the flags of a run make of the configuration of its file.
pub open spec fn overridden(r: ScenarioConfig, config: ScenarioConfig, o: RunOverrides) -> bool {
    &&& r.base_url == flag_or(o.base_url, config.base_url)
    &&& r.llm_url == flag_or(o.llm_url, config.llm_url)
    &&& r.llm_model == flag_or(o.llm_model, config.llm_model)
    &&& r.llm_api_key == flag_or(o.llm_api_key, config.llm_api_key)
    &&& if config.endpoints@.len() == 0 && set(o.llm_fallback_url) is Some {
        is_fallback_table(
            r.endpoints@,
            r.llm_url,
            r.llm_model,
            r.llm_api_key,
            r.llm_headers@,
            set(o.llm_fallback_url)->0,
            o,
        )
    } else {
        r.endpoints == config.endpoints
    }
    &&& llm::header_pairs(r.llm_headers@) == with_pairs(
        llm::header_pairs(config.llm_headers@),
        llm::header_pairs(o.llm_headers@),
    )
    &&& json::entries_of(r.model_params@) == with_pairs(
        json::entries_of(config.model_params@),
        json::entries_of(o.model_params@),
    )
    &&& r.browser_headless == Some(
        flag_or_default(o.headless, config.browser_headless, true),
    )
    &&& r.timeout_secs == Some(flag_or_default(o.timeout, config.timeout_secs, 60))
    &&& r.viewport_width == Some(
        flag_or_default(o.viewport_width, config.viewport_width, 1280),
    )
    &&& r.viewport_height == Some(
        flag_or_default(o.viewport_height, config.viewport_height, 720),
    )
    &&& r.start_url matches Some(url) && url@ == llm::or_default(
        o.start_url,
        llm::or_default(config.start_url, "/dashboard"@),
    )
    &&& r.budgets == budgets_after(
        config.budgets,
        o.max_cost,
        o.max_tokens,
        enforcement_flag(o),
    )
    &&& r.a2a_server == match o.agent_port {
        Some(port) => Some(A2aServerConfig { enabled: true, port }),
        None => config.a2a_server,
    }
    &&& r.artifacts_dir == flag_or(o.artifacts_dir, config.artifacts_dir)
    &&& r.continue_on_failure == (config.continue_on_failure || o.continue_on_failure)
    &&& r.auto_navigate == config.auto_navigate
    &&& r.temperature == config.temperature
    &&& r.thinking == config.thinking
    &&& r.mcp_server == config.mcp_server
    &&& r.screenshot_max_dimension == config.screenshot_max_dimension
    &&& r.viewport_matrix == config.viewport_matrix
    &&& r.concurrency_group == config.concurrency_group
}

/// Builds a scenario's effective global config by applying CLI overrides on
/// top of the scenario `[config]`. CLI flags win; per-scenario values keep
/// their precedence for anything the CLI did not set.
///
/// A fallback URL is only meaningful when the scenario declares no endpoints
/// (with a table, per-endpoint `fallbacks = [...]` is the declarative form):
/// then a table of two endpoints is made, so that the fallback behaves exactly
/// like a declared chain.
pub fn apply_cli_overrides(config: ScenarioConfig, o: &RunOverrides) -> (r: ScenarioConfig)
    ensures
        overridden(r, config, *o),
{
    let mut config = config;
    config.base_url = text_flag(&o.base_url, config.base_url);
    config.llm_url = text_flag(&o.llm_url, config.llm_url);
    config.llm_model = text_flag(&o.llm_model, config.llm_model);
    config.llm_api_key = text_flag(&o.llm_api_key, config.llm_api_key);
    set_headers(&mut config.llm_headers, &o.llm_headers);
    if let Some(url) = nonempty(named::copy_option(&o.llm_fallback_url)) {
        if config.endpoints.len() == 0 {
            config.endpoints = fallback_table(
                &config.llm_url,
                &config.llm_model,
                &config.llm_api_key,
                &config.llm_headers,
                url,
                o,
            );
        }
    }
    set_params(&mut config.model_params, &o.model_params);
    config.browser_headless = Some(
        match (o.headless, config.browser_headless) {
            (Some(h), _) => h,
            (None, Some(h)) => h,
            (None, None) => true,
        },
    );
    config.timeout_secs = Some(
        match (o.timeout, config.timeout_secs) {
            (Some(t), _) => t,
            (None, Some(t)) => t,
            (None, None) => 60,
        },
    );
    config.viewport_width = Some(
        match (o.viewport_width, config.viewport_width) {
            (Some(w), _) => w,
            (None, Some(w)) => w,
            (None, None) => 1280,
        },
    );
    config.viewport_height = Some(
        match (o.viewport_height, config.viewport_height) {
            (Some(h), _) => h,
            (None, Some(h)) => h,
            (None, None) => 720,
        },
    );
    let shared_start = llm::value_or(&config.start_url, "/dashboard");
    config.start_url = Some(llm::value_or(&o.start_url, shared_start.as_str()));
    let enforcement = match &o.budget_enforcement {
        Some(e) => Some(enforcement_named(text::lowercase(e.as_str()).as_str())),
        None => None,
    };
    config.budgets = override_budgets(config.budgets, o.max_cost, o.max_tokens, enforcement);
    if let Some(port) = o.agent_port {
        config.a2a_server = Some(A2aServerConfig { enabled: true, port });
    }
    config.artifacts_dir = text_flag(&o.artifacts_dir, config.artifacts_dir);
    if o.continue_on_failure {
        config.continue_on_failure = true;
    }
    config
}

/// A test at a viewport.
pub open spec fn is_variant(r: TestGroup, test: TestGroup, vp: ViewportDef) -> bool {
    &&& r.name@ == test.name@ + " — "@ + vp.name@
    &&& r.viewport_width == Some(vp.width)
    &&& r.viewport_height == Some(vp.height)
    &&& r.start_url == test.start_url
    &&& r.auto_navigate == test.auto_navigate
    &&& r.base_url == test.base_url
    &&& r.timeout_secs == test.timeout_secs
    &&& r.browser_headless == test.browser_headless
    &&& r.budget == test.budget
    &&& r.endpoint == test.endpoint
    &&& scenario::same_steps(r.steps@, test.steps@)
}

/// A test at a viewport.
fn variant(test: &TestGroup, vp: &ViewportDef) -> (r: TestGroup)
    ensures
        is_variant(r, *test, *vp),
{
    let mut name = test.name.clone();
    name.append(" — ");
    name.append(vp.name.as_str());
    TestGroup {
        name,
        start_url: named::copy_option(&test.start_url),
        auto_navigate: test.auto_navigate,
        base_url: named::copy_option(&test.base_url),
        timeout_secs: test.timeout_secs,
        browser_headless: test.browser_headless,
        viewport_width: Some(vp.width),
        viewport_height: Some(vp.height),
        budget: test.budget,
        endpoint: named::copy_option(&test.endpoint),
        steps: scenario::copy_steps(&test.steps),
    }
}

/// The viewports of a matrix; none where there is no matrix.
pub open spec fn matrix_of(config: ScenarioConfig) -> Seq<ViewportDef> {
    match config.viewport_matrix {
        Some(m) => m.viewports@,
        None => Seq::empty(),
    }
}

/// The tests, each at the size of each viewport.
pub open spec fn expanded(
    r: Seq<TestGroup>,
    tests: Seq<TestGroup>,
    viewports: Seq<ViewportDef>,
) -> bool {
    if viewports.len() == 0 {
        r == tests
    } else {
        &&& r.len() == tests.len() * viewports.len()
        &&& forall|t: int, v: int|
            0 <= t < tests.len() && 0 <= v < viewports.len() ==> is_variant(
                r[t * viewports.len() + v],
                #[trigger] tests[t],
                #[trigger] viewports[v],
            )
    }
}

/// Expands `[config.viewport_matrix]` into one test variant per named
/// viewport (each gets a ` — <name>` suffix): the variants of the first test,
/// then those of the second, and so on. Without a matrix the tests stay as
/// they are.
pub fn expand_viewport_matrix(config: &ScenarioConfig, tests: Vec<TestGroup>) -> (r: Vec<TestGroup>)
    requires
        tests@.len() * matrix_of(*config).len() <= usize::MAX,
    ensures
        expanded(r@, tests@, matrix_of(*config)),
        matrix_of(*config).len() == 0 ==> r == tests,
{
    let matrix = match &config.viewport_matrix {
        Some(m) => m,
        None => {
            return tests;
        },
    };
    let width: usize = matrix.viewports.len();
    if width == 0 {
        return tests;
    }
    let ghost viewports = matrix.viewports@;
    let ghost w = viewports.len() as int;
    let mut out: Vec<TestGroup> = Vec::new();
    let mut t: usize = 0;
    assert(0 * w == 0);
    while t < tests.len()
        invariant
            viewports == matrix.viewports@,
            w == viewports.len(),
            width == w,
            0 < w,
            t <= tests@.len(),
            out@.len() == t * w,
            forall|a: int, b: int|
                0 <= a < t && 0 <= b < w ==> is_variant(
                    out@[a * w + b],
                    #[trigger] tests@[a],
                    #[trigger] viewports[b],
                ),
        decreases tests@.len() - t,
    {
        let mut v: usize = 0;
        while v < width
            invariant
                viewports == matrix.viewports@,
                w == viewports.len(),
                width == w,
                0 < w,
                t < tests@.len(),
                v <= w,
                out@.len() == t * w + v,
                forall|a: int, b: int|
                    0 <= a <= t && 0 <= b < w && (a < t || b < v) ==> is_variant(
                        out@[a * w + b],
                        #[trigger] tests@[a],
                        #[trigger] viewports[b],
                    ),
            decreases w - v,
        {
            let ghost before = out@;
            out.push(variant(&tests[t], &matrix.viewports[v]));
            assert forall|a: int, b: int|
                0 <= a <= t && 0 <= b < w && (a < t || b < v + 1) implies is_variant(
                out@[a * w + b],
                #[trigger] tests@[a],
                #[trigger] viewports[b],
            ) by {
                if a < t {
                    assert(a * w + b < t * w) by (nonlinear_arith)
                        requires
                            0 <= a,
                            a + 1 <= t,
                            0 <= b < w,
                    ;
                    assert(0 <= a * w) by (nonlinear_arith)
                        requires
                            0 <= a,
                            0 < w,
                    ;
                    assert(out@[a * w + b] == before[a * w + b]);
                } else if b < v {
                    assert(0 <= a * w) by (nonlinear_arith)
                        requires
                            0 <= a,
                            0 < w,
                    ;
                    assert(out@[a * w + b] == before[a * w + b]);
                }
            }
            v += 1;
        }
        assert((t + 1) * w == t * w + w) by (nonlinear_arith);
        t += 1;
    }
    out
}

/// How a viewport is shown.
pub open spec fn viewport_text(vp: ViewportDef) -> Seq<char> {
    vp.name@ + "="@ + text::dec(vp.width as nat) + "x"@ + text::dec(vp.height as nat)
}

/// How viewports are shown.
pub open spec fn viewport_texts(viewports: Seq<ViewportDef>) -> Seq<Seq<char>> {
    viewports.map_values(|vp: ViewportDef| viewport_text(vp))
}

/// The line that announces a matrix, if there is one.
pub fn matrix_summary(config: &ScenarioConfig) -> (r: Option<String>)
    ensures
        match r {
            Some(line) => matrix_of(*config).len() > 0 && line@ == "Viewport matrix: "@
                + text::dec(matrix_of(*config).len()) + " variants per test ("@ + text::joined(
                viewport_texts(matrix_of(*config)),
                ", "@,
            ) + ")"@,
            None => matrix_of(*config).len() == 0,
        },
{
    let matrix = match &config.viewport_matrix {
        Some(m) => m,
        None => {
            return None;
        },
    };
    if matrix.viewports.len() == 0 {
        return None;
    }
    let ghost all = matrix.viewports@;
    let mut shown: Vec<String> = Vec::new();
    let mut i: usize = 0;
    assert(text::views(shown@) =~= viewport_texts(all.take(0)));
    while i < matrix.viewports.len()
        invariant
            all == matrix.viewports@,
            i <= all.len(),
            text::views(shown@) == viewport_texts(all.take(i as int)),
        decreases all.len() - i,
    {
        let vp = &matrix.viewports[i];
        let mut s = vp.name.clone();
        s.append("=");
        s.append(text::decimal(vp.width as u128).as_str());
        s.append("x");
        s.append(text::decimal(vp.height as u128).as_str());
        let ghost before = text::views(shown@);
        shown.push(s);
        assert(text::views(shown@) =~= before.push(s@));
        assert(viewport_texts(all.take(i + 1)) =~= viewport_texts(all.take(i as int)).push(
            viewport_text(*vp),
        ));
        i += 1;
    }
    assert(all.take(i as int) =~= all);
    let mut line = "Viewport matrix: ".to_owned();
    line.append(text::decimal(matrix.viewports.len() as u128).as_str());
    line.append(" variants per test (");
    line.append(text::join(&shown, ", ").as_str());
    line.append(")");
    Some(line)
}

/// The name of an endpoint type.
pub open spec fn type_text(t: EndpointType) -> Seq<char> {
    match t {
        EndpointType::Llm => "Llm"@,
        EndpointType::Mcp => "Mcp"@,
        EndpointType::A2a => "A2a"@,
    }
}

/// The line of an endpoint.
pub open spec fn endpoint_text(name: Seq<char>, ep: EndpointConfig) -> Seq<char> {
    let line = "  "@ + name + ": "@ + type_text(ep.endpoint_type) + " @ "@ + llm::or_default(
        ep.url,
        "(subprocess)"@,
    );
    if ep.fallbacks@.len() == 0 {
        line
    } else {
        line + "  ->  fallbacks: "@ + text::joined(text::views(ep.fallbacks@), ", "@)
    }
}

/// The lines of endpoints.
pub open spec fn endpoint_texts(endpoints: Seq<(String, EndpointConfig)>) -> Seq<Seq<char>> {
    endpoints.map_values(|e: (String, EndpointConfig)| endpoint_text(e.0@, e.1))
}

/// The lines of a budget.
pub open spec fn budget_texts(which: Seq<char>, budget: Option<BudgetDef>) -> Seq<Seq<char>> {
    match budget {
        None => Seq::empty(),
        Some(b) => {
            let cost = match b.max_cost {
                Some(c) => seq![
                    "Budget ("@ + which + "): max $"@ + numbers::fixed(
                        c as nat,
                        1_000_000_000_000,
                        2,
                    ),
                ],
                None => Seq::empty(),
            };
            let tokens = match b.max_tokens {
                Some(t) => seq!["Budget ("@ + which + "): max "@ + text::dec(t as nat) + " tokens"@],
                None => Seq::empty(),
            };
            cost + tokens
        },
    }
}

/// The lines about the endpoints of a scenario.
pub open spec fn endpoints_part(config: ScenarioConfig) -> Seq<Seq<char>> {
    seq!["Endpoints: "@ + text::dec(config.endpoints@.len()) + " configured"@] + (
    if config.endpoints@.len() == 0 {
        seq![
            "  (using default LLM: "@ + llm::or_default(config.llm_model, "-"@) + " @ "@
                + llm::or_default(config.llm_url, "-"@) + ")"@,
        ]
    } else {
        endpoint_texts(config.endpoints@)
    })
}

/// The summary header of a scenario.
pub open spec fn header_of(config: ScenarioConfig, tests: nat, definitions: nat) -> Seq<Seq<char>> {
    seq![
        "Artifacts: "@ + llm::or_default(config.artifacts_dir, "artifacts"@)
            + "  |  Continue on failure: "@ + (if config.continue_on_failure {
            "yes"@
        } else {
            "no (fail fast)"@
        }),
        "Base URL: "@ + llm::or_default(config.base_url, "-"@),
    ] + endpoints_part(config) + seq![
        "Browser: "@ + (if config.browser_headless == Some(false) {
            "visible"@
        } else {
            "headless"@
        }) + " ("@ + text::dec(config.viewport_width->0 as nat) + "x"@ + text::dec(
            config.viewport_height->0 as nat,
        ) + ")"@,
        "Start URL: "@ + llm::or_default(config.start_url, "/dashboard"@),
        "Tests: "@ + text::dec(tests) + "  Definitions: "@ + text::dec(definitions),
    ] + budget_texts("global"@, config.budgets.global) + budget_texts(
        "per-test default"@,
        config.budgets.per_test_default,
    )
}

/// Adds a line.
fn add_line(lines: &mut Vec<String>, line: String)
    ensures
        text::views(final(lines)@) == text::views(old(lines)@) + seq![line@],
{
    lines.push(line);
    assert(text::views(lines@) =~= text::views(old(lines)@) + seq![line@]);
}

/// Adds the lines about the endpoints of a scenario.
fn add_endpoints(lines: &mut Vec<String>, config: &ScenarioConfig)
    ensures
        text::views(final(lines)@) == text::views(old(lines)@) + endpoints_part(*config),
{
    let ghost before = text::views(lines@);
    let mut count = "Endpoints: ".to_owned();
    count.append(text::decimal(config.endpoints.len() as u128).as_str());
    count.append(" configured");
    add_line(lines, count);
    let ghost after_count = text::views(lines@);
    if config.endpoints.len() == 0 {
        let mut line = "  (using default LLM: ".to_owned();
        line.append(llm::value_or(&config.llm_model, "-").as_str());
        line.append(" @ ");
        line.append(llm::value_or(&config.llm_url, "-").as_str());
        line.append(")");
        add_line(lines, line);
    } else {
        let ghost all = config.endpoints@;
        let mut i: usize = 0;
        assert(text::views(lines@) =~= after_count + endpoint_texts(all.take(0)));
        while i < config.endpoints.len()
            invariant
                all == config.endpoints@,
                i <= all.len(),
                text::views(lines@) == after_count + endpoint_texts(all.take(i as int)),
            decreases all.len() - i,
        {
            let ep = &config.endpoints[i].1;
            let mut line = "  ".to_owned();
            line.append(config.endpoints[i].0.as_str());
            line.append(": ");
            line.append(
                match ep.endpoint_type {
                    EndpointType::Llm => "Llm",
                    EndpointType::Mcp => "Mcp",
                    EndpointType::A2a => "A2a",
                },
            );
            line.append(" @ ");
            line.append(llm::value_or(&ep.url, "(subprocess)").as_str());
            if ep.fallbacks.len() > 0 {
                line.append("  ->  fallbacks: ");
                line.append(text::join(&ep.fallbacks, ", ").as_str());
            }
            let ghost now = text::views(lines@);
            assert(line@ == endpoint_text(all[i as int].0@, all[i as int].1));
            add_line(lines, line);
            assert(endpoint_texts(all.take(i + 1)) =~= endpoint_texts(all.take(i as int)) + seq![
                endpoint_text(all[i as int].0@, all[i as int].1),
            ]);
            assert(text::views(lines@) =~= after_count + endpoint_texts(all.take(i + 1)));
            i += 1;
        }
        assert(all.take(i as int) =~= all);
    }
    assert(text::views(lines@) =~= before + endpoints_part(*config));
}

/// Adds the lines of a budget.
fn add_budget(lines: &mut Vec<String>, which: &str, budget: &Option<BudgetDef>)
    ensures
        text::views(final(lines)@) == text::views(old(lines)@) + budget_texts(which@, *budget),
{
    let ghost before = text::views(lines@);
    if let Some(b) = budget {
        if let Some(cost) = b.max_cost {
            let mut line = "Budget (".to_owned();
            line.append(which);
            line.append("): max $");
            line.append(numbers::dollars(cost, 2).as_str());
            add_line(lines, line);
        }
        if let Some(tokens) = b.max_tokens {
            let mut line = "Budget (".to_owned();
            line.append(which);
            line.append("): max ");
            line.append(text::decimal(tokens as u128).as_str());
            line.append(" tokens");
            add_line(lines, line);
        }
    }
    assert(text::views(lines@) =~= before + budget_texts(which@, *budget));
}

/// The per-scenario summary header (artifacts, base URL, endpoints, browser,
/// start URL, test/definition counts, budgets), line by line.
pub fn print_scenario_header(config: &ScenarioConfig, tests_len: usize, definitions_len: usize) -> (r:
    Vec<String>)
    requires
        config.viewport_width is Some,
        config.viewport_height is Some,
    ensures
        text::views(r@) == header_of(*config, tests_len as nat, definitions_len as nat),
{
    let mut lines: Vec<String> = Vec::new();
    let mut artifacts = "Artifacts: ".to_owned();
    artifacts.append(llm::value_or(&config.artifacts_dir, "artifacts").as_str());
    artifacts.append("  |  Continue on failure: ");
    artifacts.append(
        if config.continue_on_failure {
            "yes"
        } else {
            "no (fail fast)"
        },
    );
    add_line(&mut lines, artifacts);
    let mut base = "Base URL: ".to_owned();
    base.append(llm::value_or(&config.base_url, "-").as_str());
    add_line(&mut lines, base);
    let ghost head = text::views(lines@);
    add_endpoints(&mut lines, config);
    let width: u32 = match config.viewport_width {
        Some(w) => w,
        None => 0,
    };
    let height: u32 = match config.viewport_height {
        Some(h) => h,
        None => 0,
    };
    let visible = match config.browser_headless {
        Some(h) => !h,
        None => false,
    };
    let mut browser = "Browser: ".to_owned();
    browser.append(
        if visible {
            "visible"
        } else {
            "headless"
        },
    );
    browser.append(" (");
    browser.append(text::decimal(width as u128).as_str());
    browser.append("x");
    browser.append(text::decimal(height as u128).as_str());
    browser.append(")");
    add_line(&mut lines, browser);
    let mut start = "Start URL: ".to_owned();
    start.append(llm::value_or(&config.start_url, "/dashboard").as_str());
    add_line(&mut lines, start);
    let mut counts = "Tests: ".to_owned();
    counts.append(text::decimal(tests_len as u128).as_str());
    counts.append("  Definitions: ");
    counts.append(text::decimal(definitions_len as u128).as_str());
    add_line(&mut lines, counts);
    add_budget(&mut lines, "global", &config.budgets.global);
    add_budget(&mut lines, "per-test default", &config.budgets.per_test_default);
    assert(text::views(lines@) =~= header_of(*config, tests_len as nat, definitions_len as nat));
    lines
}

/// A flag that was given wins over the setting, and a setting over the
/// default.
pub proof fn law_flags_win<T>(flag: Option<T>, setting: Option<T>, default: T)
    ensures
        flag is Some ==> flag_or(flag, setting) == flag && flag_or_default(
            flag,
            setting,
            default,
        ) == flag->0,
        flag is None ==> flag_or(flag, setting) == setting,
        flag is None && setting is Some ==> flag_or_default(flag, setting, default) == setting->0,
{
}

/// The value of a name among pairs.
pub open spec fn value_in<V>(s: Seq<(Seq<char>, V)>, name: Seq<char>) -> Option<V> {
    match pair_index(s, name) {
        Some(i) => Some(s[i].1),
        None => None,
    }
}

/// The last value that pairs give a name.
pub open spec fn last_in<V>(s: Seq<(Seq<char>, V)>, name: Seq<char>) -> Option<V>
    decreases s.len(),
{
    if s.len() == 0 {
        None
    } else if s.last().0 == name {
        Some(s.last().1)
    } else {
        last_in(s.drop_last(), name)
    }
}

/// One more pair changes the value of its own name only.
proof fn lemma_with_pair<V>(s: Seq<(Seq<char>, V)>, pair: (Seq<char>, V), name: Seq<char>)
    ensures
        value_in(with_pair(s, pair), name) == if pair.0 == name {
            Some(pair.1)
        } else {
            value_in(s, name)
        },
    decreases s.len(),
{
    let r = with_pair(s, pair);
    lemma_pair_bound(s, pair.0);
    if s.len() == 0 {
        assert(r =~= seq![pair]);
        assert(pair_index(r.skip(1), name) is None);
    } else {
        lemma_pair_bound(s.skip(1), pair.0);
        if s[0].0 == pair.0 {
            assert(r.skip(1) =~= s.skip(1));
            lemma_pair_bound(s.skip(1), name);
        } else {
            lemma_with_pair(s.skip(1), pair, name);
            assert(r.skip(1) =~= with_pair(s.skip(1), pair));
            lemma_pair_bound(r.skip(1), name);
            lemma_pair_bound(s.skip(1), name);
        }
    }
}

/// A position is one among the pairs.
proof fn lemma_pair_bound<V>(s: Seq<(Seq<char>, V)>, name: Seq<char>)
    ensures
        pair_index(s, name) matches Some(i) ==> 0 <= i < s.len(),
    decreases s.len(),
{
    if s.len() > 0 {
        lemma_pair_bound(s.skip(1), name);
    }
}

/// A header or parameter given on the command line wins over the scenario's
/// (the last one where it was given twice), and those not given stay as the
/// scenario has them.
pub proof fn law_given_pairs_win<V>(
    setting: Seq<(Seq<char>, V)>,
    given: Seq<(Seq<char>, V)>,
    name: Seq<char>,
)
    ensures
        value_in(with_pairs(setting, given), name) == flag_or(
            last_in(given, name),
            value_in(setting, name),
        ),
    decreases given.len(),
{
    if given.len() > 0 {
        law_given_pairs_win(setting, given.drop_last(), name);
        lemma_with_pair(with_pairs(setting, given.drop_last()), given.last(), name);
    }
}

/// A pair is split at the first of its separators; what has none is no pair.
pub proof fn law_pairs_split_at_the_first_separator(a: Seq<char>, c: char, b: Seq<char>)
    requires
        text::lacks(a, c),
    ensures
        split_at_char(a + seq![c] + b, c) == Some((a, b)),
        split_at_char(a, c) is None,
{
    let all = a + seq![c] + b;
    lemma_separator(a, c, seq![c] + b);
    assert(a + (seq![c] + b) =~= all);
    lemma_separator(a, c, Seq::empty());
    assert(a + Seq::<char>::empty() =~= a);
    assert(all.take(a.len() as int) =~= a);
    assert(all.skip(a.len() as int + 1) =~= b);
}

/// The separator stands behind what lacks it.
proof fn lemma_separator(a: Seq<char>, c: char, rest: Seq<char>)
    requires
        text::lacks(a, c),
        rest.len() == 0 || rest[0] == c,
    ensures
        text::index_of(a + rest, c) == a.len(),
    decreases a.len(),
{
    let all = a + rest;
    if a.len() > 0 {
        assert(all[0] == a[0]);
        assert forall|i: int| 0 <= i < a.skip(1).len() implies #[trigger] a.skip(1)[i] != c by {
            assert(a.skip(1)[i] == a[i + 1]);
        }
        lemma_separator(a.skip(1), c, rest);
        assert(all.skip(1) =~= a.skip(1) + rest);
    } else {
        assert(all =~= rest);
    }
}

/// A flag that is given but blank counts as not given; any other stays as it
/// is.
pub proof fn law_blank_flags_do_not_count(v: Option<String>)
    ensures
        v is None ==> set(v) is None,
        (v matches Some(s) && s@.len() == 0) ==> set(v) is None,
        (v matches Some(s) && s@.len() > 0 && !text::is_space(s@[0])) ==> set(v) == v,
        set(v) is Some ==> set(v) == v,
{
    if let Some(s) = v {
        let (i, j) = text::law_trimmed_is_a_part(s@);
        if s@.len() > 0 && !text::is_space(s@[0]) && text::trimmed(s@).len() == 0 {
            assert(text::is_space(s@[0]));
        }
    }
}

/// A model parameter is what its value says as JSON, or else the value itself as
/// a string.
pub proof fn law_parameters_are_json_or_text(value: Seq<char>)
    ensures
        json::parsed_json(value) matches Ok(j) ==> param_json(value) == j,
        json::parsed_json(value) is Err ==> param_json(value) == Json::Str(value),
{
}

/// Flags set the limits of the global budget that they name, and leave the
/// others, and the budget of the tests, as they were.
pub proof fn law_budget_flags_set_their_own_limit(
    budgets: BudgetsConfig,
    max_cost: Option<Picodollars>,
    max_tokens: Option<u64>,
    enforcement: Option<BudgetEnforcement>,
)
    ensures
        ({
            let r = budgets_after(budgets, max_cost, max_tokens, enforcement);
            &&& r.per_test_default == budgets.per_test_default
            &&& max_cost is Some ==> r.global is Some && (r.global->0).max_cost == max_cost
            &&& max_tokens is Some ==> r.global is Some && (r.global->0).max_tokens == max_tokens
            &&& enforcement is Some ==> r.global is Some && (r.global->0).enforcement == enforcement
            &&& budgets.global is Some ==> r.global is Some && (r.global->0).max_calls == (
            budgets.global->0).max_calls
            &&& budgets.global is Some && max_cost is None ==> (r.global->0).max_cost == (
            budgets.global->0).max_cost
            &&& budgets.global is Some && max_tokens is None ==> (r.global->0).max_tokens == (
            budgets.global->0).max_tokens
            &&& budgets.global is Some && enforcement is None ==> (r.global->0).enforcement == (
            budgets.global->0).enforcement
            &&& budgets.global is None && max_cost is None && max_tokens is None
                && enforcement is None ==> r.global is None
            &&& budgets.global is None && r.global is Some ==> (r.global->0).max_calls is None
        }),
{
}

/// Only what is called soft is soft.
pub proof fn law_enforcement_is_soft_by_name(lower: Seq<char>)
    ensures
        enforcement_in(lower) == BudgetEnforcement::Soft <==> lower == seq!['s', 'o', 'f', 't'],
        enforcement_in(lower) == BudgetEnforcement::Hard <==> lower != seq!['s', 'o', 'f', 't'],
{
    reveal_strlit("soft");
    assert("soft"@ =~= seq!['s', 'o', 'f', 't']);
}

/// A fallback that is given on the command line stands behind the endpoint of
/// the file, which serves both tasks and falls back to it.
pub proof fn law_fallback_stands_behind_the_default(
    table: Seq<(String, EndpointConfig)>,
    url: Option<String>,
    model: Option<String>,
    api_key: Option<String>,
    headers: Seq<(String, String)>,
    fallback_url: String,
    o: RunOverrides,
)
    requires
        is_fallback_table(table, url, model, api_key, headers, fallback_url, o),
    ensures
        table.len() == 2,
        table[0].1.url == url && table[0].1.model == model && table[0].1.api_key == api_key,
        table[0].1.headers@ == headers,
        table[1].1.url == Some(fallback_url),
        table[0].1.fallbacks@.len() == 1 && table[0].1.fallbacks@[0]@ == table[1].0@,
        table[0].1.default_for@.len() == 2 && table[0].1.default_for@[0]@ == "targeting"@
            && table[0].1.default_for@[1]@ == "assertion"@,
        table[1].1.fallbacks@.len() == 0 && table[1].1.default_for@.len() == 0,
        table[0].0@ != table[1].0@,
        table[0].1.endpoint_type == EndpointType::Llm && table[1].1.endpoint_type
            == EndpointType::Llm,
        (o.llm_fallback_model matches Some(m) && m@.len() > 0 && !text::is_space(m@[0]))
            ==> table[1].1.model == o.llm_fallback_model,
        (o.llm_fallback_api_key matches Some(m) && m@.len() > 0 && !text::is_space(m@[0]))
            ==> table[1].1.api_key == o.llm_fallback_api_key,
{
    let ep = table[0].1;
    assert(text::views(ep.fallbacks@).len() == 1 && text::views(ep.default_for@).len() == 2);
    assert(text::views(ep.fallbacks@).len() == ep.fallbacks@.len());
    assert(text::views(ep.default_for@).len() == ep.default_for@.len());
    assert(text::views(ep.fallbacks@)[0] == ep.fallbacks@[0]@);
    assert(text::views(ep.default_for@)[0] == ep.default_for@[0]@);
    assert(text::views(ep.default_for@)[1] == ep.default_for@[1]@);
    reveal_strlit("default");
    reveal_strlit("fallback");
    assert("default"@.len() == 7 && "fallback"@.len() == 8);
    law_blank_flags_do_not_count(o.llm_fallback_model);
    law_blank_flags_do_not_count(o.llm_fallback_api_key);
}

/// A variant of a test is the test at the size of the viewport, with both
/// names in its own.
pub proof fn law_variants_are_the_test_at_a_size(r: TestGroup, test: TestGroup, vp: ViewportDef)
    requires
        is_variant(r, test, vp),
    ensures
        r.viewport_width == Some(vp.width),
        r.viewport_height == Some(vp.height),
        text::has_text(r.name@, test.name@),
        text::has_text(r.name@, vp.name@),
        r.budget == test.budget && r.endpoint == test.endpoint && r.base_url == test.base_url,
        r.start_url == test.start_url && r.timeout_secs == test.timeout_secs,
        r.steps@.len() == test.steps@.len(),
{
    text::lemma_middle(Seq::empty(), test.name@, " — "@ + vp.name@);
    assert(Seq::<char>::empty() + test.name@ + (" — "@ + vp.name@) =~= r.name@);
    text::lemma_middle(test.name@ + " — "@, vp.name@, Seq::empty());
    assert(test.name@ + " — "@ + vp.name@ + Seq::<char>::empty() =~= r.name@);
}

/// The line of an endpoint shows its name, its address and every fallback.
#[verifier::rlimit(60)]
pub proof fn law_endpoint_lines_show_the_endpoint(name: Seq<char>, ep: EndpointConfig, i: int)
    ensures
        text::has_text(endpoint_text(name, ep), name),
        ep.url matches Some(u) ==> text::has_text(endpoint_text(name, ep), u@),
        0 <= i < ep.fallbacks@.len() ==> text::has_text(
            endpoint_text(name, ep),
            ep.fallbacks@[i]@,
        ),
{
    let all = endpoint_text(name, ep);
    let kind = type_text(ep.endpoint_type);
    let url = llm::or_default(ep.url, "(subprocess)"@);
    let list = text::joined(text::views(ep.fallbacks@), ", "@);
    let rest = if ep.fallbacks@.len() == 0 {
        Seq::empty()
    } else {
        "  ->  fallbacks: "@ + list
    };
    text::lemma_middle("  "@, name, ": "@ + kind + " @ "@ + url + rest);
    assert("  "@ + name + (": "@ + kind + " @ "@ + url + rest) =~= all);
    text::lemma_middle("  "@ + name + ": "@ + kind + " @ "@, url, rest);
    assert("  "@ + name + ": "@ + kind + " @ "@ + url + rest =~= all);
    if 0 <= i < ep.fallbacks@.len() {
        text::law_joined_holds_each(text::views(ep.fallbacks@), ", "@, i);
        assert(text::views(ep.fallbacks@)[i] == ep.fallbacks@[i]@);
        let one = ep.fallbacks@[i]@;
        let head = "  "@ + name + ": "@ + kind + " @ "@ + url + "  ->  fallbacks: "@;
        assert(head + list =~= all);
        let at = choose|at: int| text::occurs_at(list, one, at);
        assert(all.subrange(head.len() + at, head.len() + at + one.len()) =~= list.subrange(
            at,
            at + one.len(),
        ));
        assert(text::occurs_at(all, one, head.len() + at));
    }
}

/// The head of a run tells where it goes, in which browser, and how much there
/// is of it; every endpoint has its line.
pub proof fn law_heads_tell_the_settings(
    config: ScenarioConfig,
    tests: nat,
    definitions: nat,
    i: int,
)
    ensures
        ({
            let h = header_of(config, tests, definitions);
            &&& h.len() >= 7
            &&& config.base_url matches Some(u) ==> text::has_text(h[1], u@)
            &&& 0 <= i < config.endpoints@.len() ==> h[3 + i] == endpoint_text(
                config.endpoints@[i].0@,
                config.endpoints@[i].1,
            )
            &&& text::has_text(h[2], text::dec(config.endpoints@.len()))
        }),
{
    let h = header_of(config, tests, definitions);
    let part = endpoints_part(config);
    let none = Seq::<char>::empty();
    assert(h[2] == part[0]);
    text::lemma_middle("Endpoints: "@, text::dec(config.endpoints@.len()), " configured"@);
    if let Some(u) = config.base_url {
        text::lemma_middle("Base URL: "@, u@, none);
        assert("Base URL: "@ + u@ + none =~= h[1]);
    }
    if 0 <= i < config.endpoints@.len() {
        assert(h[3 + i] == part[1 + i]);
        assert(part[1 + i] == endpoint_texts(config.endpoints@)[i]);
    }
}

/// A budget is told by its limits, and only by those that it has.
pub proof fn law_budget_lines_tell_the_limits(which: Seq<char>, budget: Option<BudgetDef>)
    ensures
        budget is None ==> budget_texts(which, budget).len() == 0,
        budget matches Some(b) ==> budget_texts(which, budget).len() == (if b.max_cost is Some {
            1int
        } else {
            0
        }) + (if b.max_tokens is Some {
            1int
        } else {
            0
        }),
        (budget matches Some(b) && b.max_tokens is Some) ==> text::has_text(
            budget_texts(which, budget).last(),
            text::dec((budget->0).max_tokens->0 as nat),
        ),
{
    if let Some(b) = budget {
        if let Some(t) = b.max_tokens {
            let head = "Budget ("@ + which + "): max "@;
            text::lemma_middle(head, text::dec(t as nat), " tokens"@);
        }
    }
}

/// The head says whether the browser can be seen, and how large it is.
pub proof fn law_heads_tell_the_browser(config: ScenarioConfig, tests: nat, definitions: nat)
    ensures
        ({
            let line = header_of(config, tests, definitions)[2 + endpoints_part(
                config,
            ).len() as int];
            &&& config.browser_headless == Some(false) ==> text::has_text(line, "visible"@)
            &&& config.browser_headless != Some(false) ==> text::has_text(line, "headless"@)
            &&& text::has_text(line, text::dec(config.viewport_width->0 as nat) + "x"@)
        }),
{
    let h = header_of(config, tests, definitions);
    let at = 2 + endpoints_part(config).len() as int;
    let word = if config.browser_headless == Some(false) {
        "visible"@
    } else {
        "headless"@
    };
    let w = text::dec(config.viewport_width->0 as nat);
    let t = text::dec(config.viewport_height->0 as nat);
    let line = "Browser: "@ + word + " ("@ + w + "x"@ + t + ")"@;
    assert(h[at] == line);
    text::lemma_middle("Browser: "@, word, " ("@ + w + "x"@ + t + ")"@);
    assert("Browser: "@ + word + (" ("@ + w + "x"@ + t + ")"@) =~= line);
    text::lemma_middle("Browser: "@ + word + " ("@, w + "x"@, t + ")"@);
    assert("Browser: "@ + word + " ("@ + (w + "x"@) + (t + ")"@) =~= line);
}

/// What is given on the command line wins over the file; what neither gives has
/// its default. What has no flag stays as the file has it.
pub proof fn law_command_line_wins(r: ScenarioConfig, config: ScenarioConfig, o: RunOverrides)
    requires
        overridden(r, config, o),
    ensures
        o.base_url is Some ==> r.base_url == o.base_url,
        o.base_url is None ==> r.base_url == config.base_url,
        o.llm_url is Some ==> r.llm_url == o.llm_url,
        o.llm_url is None ==> r.llm_url == config.llm_url,
        o.llm_model is Some ==> r.llm_model == o.llm_model,
        o.llm_model is None ==> r.llm_model == config.llm_model,
        o.llm_api_key is Some ==> r.llm_api_key == o.llm_api_key,
        o.llm_api_key is None ==> r.llm_api_key == config.llm_api_key,
        o.headless matches Some(h) ==> r.browser_headless == Some(h),
        o.headless is None && config.browser_headless is Some ==> r.browser_headless
            == config.browser_headless,
        o.headless is None && config.browser_headless is None ==> r.browser_headless == Some(true),
        o.timeout matches Some(t) ==> r.timeout_secs == Some(t),
        o.timeout is None && config.timeout_secs is None ==> r.timeout_secs == Some(60u64),
        o.viewport_width matches Some(w) ==> r.viewport_width == Some(w),
        o.viewport_width is None && config.viewport_width is None ==> r.viewport_width == Some(
            1280u32,
        ),
        o.viewport_height matches Some(h) ==> r.viewport_height == Some(h),
        o.viewport_height is None && config.viewport_height is None ==> r.viewport_height == Some(
            720u32,
        ),
        o.start_url matches Some(u) ==> r.start_url is Some && r.start_url->0@ == u@,
        o.start_url is None && config.start_url is None ==> r.start_url is Some && r.start_url->0@
            == "/dashboard"@,
        o.agent_port matches Some(p) ==> (r.a2a_server matches Some(a) && a.enabled && a.port == p),
        o.agent_port is None ==> r.a2a_server == config.a2a_server,
        o.artifacts_dir is Some ==> r.artifacts_dir == o.artifacts_dir,
        r.continue_on_failure <==> config.continue_on_failure || o.continue_on_failure,
        config.endpoints@.len() > 0 || o.llm_fallback_url is None ==> r.endpoints
            == config.endpoints,
        config.endpoints@.len() == 0 && (o.llm_fallback_url matches Some(u) && u@.len() > 0
            && !text::is_space(u@[0])) ==> r.endpoints@.len() == 2 && r.endpoints@[1].1.url
            == o.llm_fallback_url && r.endpoints@[0].1.url == r.llm_url,
        r.thinking == config.thinking && r.temperature == config.temperature,
        r.viewport_matrix == config.viewport_matrix && r.concurrency_group
            == config.concurrency_group && r.screenshot_max_dimension
            == config.screenshot_max_dimension && r.auto_navigate == config.auto_navigate,
{
    law_blank_flags_do_not_count(o.llm_fallback_url);
}

/// Every test is run at every size of the matrix, the sizes of one test one after
/// the other; without a matrix the tests are run as they are.
pub proof fn law_every_test_runs_at_every_size(
    r: Seq<TestGroup>,
    tests: Seq<TestGroup>,
    viewports: Seq<ViewportDef>,
    t: int,
    v: int,
)
    requires
        expanded(r, tests, viewports),
    ensures
        viewports.len() == 0 ==> r == tests,
        viewports.len() > 0 ==> r.len() == tests.len() * viewports.len(),
        0 <= t < tests.len() && 0 <= v < viewports.len() ==> {
            let one = r[t * viewports.len() + v];
            &&& one.viewport_width == Some(viewports[v].width)
            &&& one.viewport_height == Some(viewports[v].height)
            &&& text::has_text(one.name@, tests[t].name@)
            &&& text::has_text(one.name@, viewports[v].name@)
            &&& one.steps@.len() == tests[t].steps@.len()
        },
{
    if 0 <= t < tests.len() && 0 <= v < viewports.len() {
        let one = r[t * viewports.len() + v];
        assert(is_variant(one, tests[t], viewports[v]));
        law_variants_are_the_test_at_a_size(one, tests[t], viewports[v]);
    }
}

/// A limit on the cost is told in dollars and cents.
pub proof fn law_cost_limits_are_told_in_cents(which: Seq<char>, budget: BudgetDef)
    requires
        budget.max_cost is Some,
    ensures
        ({
            let line = budget_texts(which, Some(budget))[0];
            &&& text::has_text(line, which)
            &&& line.len() >= 3
            &&& line[line.len() - 3] == '.'
            &&& text::has_text(
                line,
                numbers::fixed(budget.max_cost->0 as nat, 1_000_000_000_000, 2),
            )
        }),
{
    let units = numbers::double_units(budget.max_cost->0 as nat, 1_000_000_000_000, 2);
    numbers::law_decimals_are_the_last_digits(units, 2);
    lemma_cost_text(
        which,
        numbers::fixed(budget.max_cost->0 as nat, 1_000_000_000_000, 2),
        budget_texts(which, Some(budget))[0],
    );
}

/// The parts of a line on a limit.
proof fn lemma_cost_text(which: Seq<char>, amount: Seq<char>, line: Seq<char>)
    requires
        line == "Budget ("@ + which + "): max $"@ + amount,
        amount.len() >= 3,
    ensures
        text::has_text(line, which),
        text::has_text(line, amount),
        line.len() >= 3,
        line[line.len() - 3] == amount[amount.len() - 3],
{
    let lead = "Budget ("@;
    let max = "): max $"@;
    text::lemma_middle(lead, which, max + amount);
    assert(lead + which + (max + amount) =~= line);
    text::lemma_middle(lead + which + max, amount, Seq::empty());
    assert(lead + which + max + amount + Seq::<char>::empty() =~= line);
}

} // verus!
