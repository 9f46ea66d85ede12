//! Endpoint registry — resolves named endpoints and task-type routing.
use vstd::prelude::*;
use crate::llm;
use crate::llm::{EnvSettings, LlmConfig};
use crate::named;
use crate::scenario::{
    AuthConfig, AwsConfig, EndpointConfig, EndpointType, Named, Picodollars, PricingConfig, Provider,
};
use crate::text;

verus! {

/// Classification of a task for endpoint routing.
#[derive(Debug, Clone, Copy, PartialEq, Eq, Hash, Structural)]
pub enum TaskType {
    /// LLM-based element targeting (resolving CSS selectors from natural
    /// language).
    Targeting,
    /// LLM-based assertion evaluation.
    Assertion,
}

impl TaskType {
    /// The routing key of the task type.
    pub open spec fn key(self) -> Seq<char> {
        match self {
            TaskType::Targeting => "targeting"@,
            TaskType::Assertion => "assertion"@,
        }
    }

    /// Returns the routing key string of the task type.
    pub fn as_str(self) -> (r: &'static str)
        ensures
            r@ == self.key(),
    {
        match self {
            TaskType::Targeting => "targeting",
            TaskType::Assertion => "assertion",
        }
    }
}

/// Resolved endpoint ready for use in calls.
#[derive(Debug, Clone)]
pub struct ResolvedEndpoint {
    /// Endpoint name.
    pub name: String,
    /// Endpoint type.
    pub endpoint_type: EndpointType,
    /// Base URL for HTTP-based endpoints.
    pub url: String,
    /// Model name (LLM endpoints only).
    pub model: Option<String>,
    /// API key / bearer token.
    pub api_key: Option<String>,
    /// Custom HTTP headers.
    pub headers: Named<String>,
    /// Command for MCP subprocess endpoints.
    pub command: Option<String>,
    /// Arguments for MCP subprocess endpoints.
    pub args: Vec<String>,
    /// Whether this endpoint accepts images.
    pub vision: bool,
    /// Microdollars per 1M input tokens (picodollars per token).
    pub input_price_per_1m: u64,
    /// Microdollars per 1M output tokens (picodollars per token).
    pub output_price_per_1m: u64,
    /// Flat cost per call.
    pub per_call_price: Picodollars,
    /// Attempts for a single chat completion.
    pub max_attempts: u32,
    /// Ordered names of the endpoints tried when this one exhausts its
    /// attempts (LLM endpoints only).
    pub fallbacks: Vec<String>,
    /// LLM provider protocol.
    pub provider: Provider,
    /// Azure deployment name.
    pub deployment: Option<String>,
    /// Azure API version.
    pub api_version: Option<String>,
    /// Authentication configuration.
    pub auth: AuthConfig,
    /// Headers produced by running a command per call.
    pub header_commands: Named<String>,
    /// AWS credential settings.
    pub aws: AwsConfig,
}

impl ResolvedEndpoint {
    /// A free LLM endpoint named `default`.
    pub open spec fn is_default_llm(&self) -> bool {
        &&& self.name@ == "default"@
        &&& self.endpoint_type == EndpointType::Llm
        &&& self.command is None
        &&& self.args@.len() == 0
        &&& !self.vision
        &&& self.input_price_per_1m == 0
        &&& self.output_price_per_1m == 0
        &&& self.per_call_price == 0
        &&& self.fallbacks@.len() == 0
    }

    /// The default endpoint that the environment describes.
    pub open spec fn is_from_env(&self, env: EnvSettings) -> bool {
        &&& self.is_default_llm()
        &&& self.url@ == llm::llm_url_of(env)
        &&& self.model matches Some(m) && m@ == llm::or_default(env.llm_model, "deepseek"@)
        &&& self.api_key == env.llm_api_key
        &&& named::distinct(self.headers@)
        &&& llm::texts_by_name(self.headers@) == match env.llm_headers {
            Some(raw) => llm::headers_in(raw@),
            None => Map::empty(),
        }
        &&& self.max_attempts == llm::attempts_of(env.llm_call_attempts)
        &&& self.provider == Provider::Openai
        &&& self.deployment is None
        &&& self.api_version is None
        &&& self.auth.is_default()
        &&& self.header_commands@.len() == 0
        &&& self.aws.is_default()
    }

    /// The default endpoint that an LLM configuration describes.
    pub open spec fn is_from_llm(&self, llm: LlmConfig) -> bool {
        &&& self.is_default_llm()
        &&& self.url == llm.url
        &&& self.model == Some(llm.model)
        &&& self.api_key == llm.api_key
        &&& self.headers@ == llm.headers@
        &&& self.max_attempts == llm.max_attempts
        &&& self.provider == llm.provider
        &&& self.deployment == llm.deployment
        &&& self.api_version == llm.api_version
        &&& self.auth == llm.auth
        &&& self.header_commands@ == llm.header_commands@
        &&& self.aws == llm.aws
    }

    /// The endpoint that a definition describes.
    pub open spec fn is_from_config(&self, name: String, ec: EndpointConfig, env: EnvSettings) -> bool {
        &&& self.name == name
        &&& self.endpoint_type == ec.endpoint_type
        &&& self.url@ == text::without_trailing(
            match ec.url {
                Some(u) => u@,
                None => if ec.endpoint_type == EndpointType::Llm {
                    llm::llm_url_of(env)
                } else {
                    Seq::empty()
                },
            },
            '/',
        )
        &&& self.model == ec.model
        &&& self.api_key == ec.api_key
        &&& self.headers@ == ec.headers@
        &&& self.command == ec.command
        &&& self.args@ == ec.args@
        &&& self.vision == ec.vision
        &&& self.input_price_per_1m == priced(ec.pricing).input_per_1m_tokens
        &&& self.output_price_per_1m == priced(ec.pricing).output_per_1m_tokens
        &&& self.per_call_price == priced(ec.pricing).per_call
        &&& self.max_attempts == match ec.max_attempts {
            Some(n) => n as nat,
            None => llm::attempts_of(env.llm_call_attempts),
        }
        &&& self.fallbacks@ == ec.fallbacks@
        &&& self.provider == ec.provider
        &&& self.deployment == ec.deployment
        &&& self.api_version == ec.api_version
        &&& self.auth == ec.auth
        &&& self.header_commands@ == ec.header_commands@
        &&& self.aws == ec.aws
    }

    /// Creates a default LLM endpoint from environment settings.
    pub fn default_llm(env: &EnvSettings) -> (r: Self)
        ensures
            r.is_from_env(*env),
    {
        ResolvedEndpoint {
            name: "default".to_owned(),
            endpoint_type: EndpointType::Llm,
            url: llm::llm_base_url(env),
            model: Some(llm::llm_model(env)),
            api_key: named::copy_option(&env.llm_api_key),
            headers: llm::parse_headers_env(env),
            command: None,
            args: Vec::new(),
            vision: false,
            input_price_per_1m: 0,
            output_price_per_1m: 0,
            per_call_price: 0,
            max_attempts: llm::default_llm_attempts(env),
            fallbacks: Vec::new(),
            provider: Provider::Openai,
            deployment: None,
            api_version: None,
            auth: AuthConfig::default(),
            header_commands: Vec::new(),
            aws: AwsConfig::default(),
        }
    }

    /// The default LLM endpoint of an LLM configuration.
    fn from_llm(llm: &LlmConfig) -> (r: Self)
        ensures
            r.is_from_llm(*llm),
    {
        ResolvedEndpoint {
            name: "default".to_owned(),
            endpoint_type: EndpointType::Llm,
            url: llm.url.clone(),
            model: Some(llm.model.clone()),
            api_key: named::copy_option(&llm.api_key),
            headers: named::copy_named(&llm.headers),
            command: None,
            args: Vec::new(),
            vision: false,
            input_price_per_1m: 0,
            output_price_per_1m: 0,
            per_call_price: 0,
            max_attempts: llm.max_attempts,
            fallbacks: Vec::new(),
            provider: llm.provider,
            deployment: named::copy_option(&llm.deployment),
            api_version: named::copy_option(&llm.api_version),
            auth: llm.auth.copy(),
            header_commands: named::copy_named(&llm.header_commands),
            aws: llm.aws.copy(),
        }
    }

    /// The endpoint of a definition.
    fn from_config(name: &String, ec: &EndpointConfig, env: &EnvSettings) -> (r: Self)
        ensures
            r.is_from_config(*name, *ec, *env),
    {
        let url = match &ec.url {
            Some(u) => u.clone(),
            None => match ec.endpoint_type {
                EndpointType::Llm => llm::llm_base_url(env),
                _ => String::new(),
            },
        };
        assert(ec.url is None && ec.endpoint_type != EndpointType::Llm ==> url@ =~= Seq::<
            char,
        >::empty());
        let pricing = match ec.pricing {
            Some(p) => p,
            None => PricingConfig { input_per_1m_tokens: 0, output_per_1m_tokens: 0, per_call: 0 },
        };
        ResolvedEndpoint {
            name: name.clone(),
            endpoint_type: ec.endpoint_type,
            url: text::trim_trailing(url.as_str(), '/'),
            model: named::copy_option(&ec.model),
            api_key: named::copy_option(&ec.api_key),
            headers: named::copy_named(&ec.headers),
            command: named::copy_option(&ec.command),
            args: named::copy_strings(&ec.args),
            vision: ec.vision,
            input_price_per_1m: pricing.input_per_1m_tokens,
            output_price_per_1m: pricing.output_per_1m_tokens,
            per_call_price: pricing.per_call,
            max_attempts: match ec.max_attempts {
                Some(n) => n,
                None => llm::default_llm_attempts(env),
            },
            fallbacks: named::copy_strings(&ec.fallbacks),
            provider: ec.provider,
            deployment: named::copy_option(&ec.deployment),
            api_version: named::copy_option(&ec.api_version),
            auth: ec.auth.copy(),
            header_commands: named::copy_named(&ec.header_commands),
            aws: ec.aws.copy(),
        }
    }
}

/// The prices of an endpoint; nothing costs anything where none are set.
pub open spec fn priced(pricing: Option<PricingConfig>) -> PricingConfig {
    match pricing {
        Some(p) => p,
        None => PricingConfig { input_per_1m_tokens: 0, output_per_1m_tokens: 0, per_call: 0 },
    }
}

/// The list holds the text.
pub open spec fn lists(s: Seq<String>, t: Seq<char>) -> bool {
    exists|i: int| 0 <= i < s.len() && (#[trigger] s[i])@ == t
}

/// The endpoint that tasks of a kind go to by default: the last one that
/// claims them.
pub open spec fn claimed(endpoints: Seq<(String, EndpointConfig)>, key: Seq<char>) -> Option<
    Seq<char>,
>
    decreases endpoints.len(),
{
    if endpoints.len() == 0 {
        None
    } else if lists(endpoints.last().1.default_for@, key) {
        Some(endpoints.last().0@)
    } else {
        claimed(endpoints.drop_last(), key)
    }
}

/// The position of the first endpoint of that name, from `i` on.
pub open spec fn index_from(eps: Seq<ResolvedEndpoint>, name: Seq<char>, i: int) -> Option<int>
    decreases eps.len() - i,
{
    if i < 0 || i >= eps.len() {
        None
    } else if eps[i].name@ == name {
        Some(i)
    } else {
        index_from(eps, name, i + 1)
    }
}

/// The position of the endpoint of that name.
pub open spec fn index_named(eps: Seq<ResolvedEndpoint>, name: Seq<char>) -> Option<int> {
    index_from(eps, name, 0)
}

/// The position of the first LLM endpoint, from `i` on.
pub open spec fn llm_from(eps: Seq<ResolvedEndpoint>, i: int) -> Option<int>
    decreases eps.len() - i,
{
    if i < 0 || i >= eps.len() {
        None
    } else if eps[i].endpoint_type == EndpointType::Llm {
        Some(i)
    } else {
        llm_from(eps, i + 1)
    }
}

/// What `index_from` says.
proof fn lemma_index_from(eps: Seq<ResolvedEndpoint>, name: Seq<char>, i: int)
    requires
        0 <= i <= eps.len(),
    ensures
        match index_from(eps, name, i) {
            Some(k) => i <= k < eps.len() && eps[k].name@ == name,
            None => forall|k: int| i <= k < eps.len() ==> (#[trigger] eps[k]).name@ != name,
        },
    decreases eps.len() - i,
{
    if i < eps.len() && eps[i].name@ != name {
        lemma_index_from(eps, name, i + 1);
    }
}

/// Registry of all configured endpoints with routing logic.
pub struct EndpointRegistry {
    endpoints: Vec<ResolvedEndpoint>,
    default_for: Named<String>,
}

/// The endpoint that comes next in a chain: the first one, in the order of
/// the fallback lists of the members from `a` on (of the first of them from
/// its entry `b` on), that is an LLM endpoint and not yet in the chain.
pub open spec fn next_from(
    eps: Seq<ResolvedEndpoint>,
    chain: Seq<int>,
    a: int,
    b: int,
) -> Option<int>
    decreases chain.len() - a, eps[chain[a]].fallbacks@.len() - b,
{
    if a < 0 || b < 0 || a >= chain.len() {
        None
    } else if b >= eps[chain[a]].fallbacks@.len() {
        next_from(eps, chain, a + 1, 0)
    } else {
        match index_named(eps, eps[chain[a]].fallbacks@[b]@) {
            Some(j) => if eps[j].endpoint_type == EndpointType::Llm && !chain.contains(j) {
                Some(j)
            } else {
                next_from(eps, chain, a, b + 1)
            },
            None => next_from(eps, chain, a, b + 1),
        }
    }
}

/// A chain with up to `hops` more members.
pub open spec fn extended(eps: Seq<ResolvedEndpoint>, chain: Seq<int>, hops: nat) -> Seq<int>
    decreases hops,
{
    if hops == 0 {
        chain
    } else {
        match next_from(eps, chain, 0, 0) {
            Some(j) => extended(eps, chain.push(j), (hops - 1) as nat),
            None => chain,
        }
    }
}

/// The positions of the endpoints that are called in turn, from `primary` on.
pub open spec fn chain_of(eps: Seq<ResolvedEndpoint>, primary: int) -> Seq<int> {
    extended(eps, seq![primary], 8)
}

impl EndpointRegistry {
    /// The configured endpoints, in order.
    pub closed spec fn eps(&self) -> Seq<ResolvedEndpoint> {
        self.endpoints@
    }

    /// The endpoint that tasks of a kind go to by default.
    pub closed spec fn route(&self, key: Seq<char>) -> Option<Seq<char>> {
        match named::value_of(self.default_for@, key) {
            Some(name) => Some(name@),
            None => None,
        }
    }

    /// The position of the endpoint for a task: the one that claims it, else
    /// the first LLM endpoint.
    pub open spec fn for_task(&self, task: TaskType) -> Option<int> {
        match self.route(task.key()) {
            Some(name) => match index_named(self.eps(), name) {
                Some(i) => Some(i),
                None => llm_from(self.eps(), 0),
            },
            None => llm_from(self.eps(), 0),
        }
    }

    /// The position of the endpoint for a name and a task: that of the name,
    /// else that of the task.
    pub open spec fn chosen(&self, name: Option<Seq<char>>, task: TaskType) -> Option<int> {
        match name {
            Some(n) => match index_named(self.eps(), n) {
                Some(i) => Some(i),
                None => self.for_task(task),
            },
            None => self.for_task(task),
        }
    }

    /// The registry holds the defined endpoints, in order, with the tasks that
    /// they claim; where none is defined one default LLM endpoint, of the
    /// given configuration or else of the environment, for all LLM tasks.
    pub open spec fn built_from(
        &self,
        endpoints: Seq<(String, EndpointConfig)>,
        fallback_llm: Option<LlmConfig>,
        env: EnvSettings,
    ) -> bool {
        &&& endpoints.len() == 0 ==> {
            &&& self.eps().len() == 1
            &&& match fallback_llm {
                Some(llm) => self.eps()[0].is_from_llm(llm),
                None => self.eps()[0].is_from_env(env),
            }
            &&& forall|key: Seq<char>| #[trigger]
                self.route(key) == if key == "targeting"@ || key == "assertion"@ {
                    Some("default"@)
                } else {
                    None
                }
        }
        &&& endpoints.len() > 0 ==> {
            &&& self.eps().len() == endpoints.len()
            &&& forall|i: int|
                0 <= i < endpoints.len() ==> (#[trigger] self.eps()[i]).is_from_config(
                    endpoints[i].0,
                    endpoints[i].1,
                    env,
                )
            &&& forall|key: Seq<char>| #[trigger] self.route(key) == claimed(endpoints, key)
        }
    }

    /// Builds a registry from endpoint definitions.
    ///
    /// Falls back to one default LLM endpoint, of the given configuration or
    /// else of the environment, when no endpoints are defined.
    pub fn from_config(
        endpoints: &Named<EndpointConfig>,
        fallback_llm: Option<&LlmConfig>,
        env: &EnvSettings,
    ) -> (r: Self)
        ensures
            r.built_from(
                endpoints@,
                match fallback_llm {
                    Some(llm) => Some(*llm),
                    None => None,
                },
                *env,
            ),
    {
        if endpoints.len() == 0 {
            let only = match fallback_llm {
                Some(llm) => ResolvedEndpoint::from_llm(llm),
                None => ResolvedEndpoint::default_llm(env),
            };
            let mut list: Vec<ResolvedEndpoint> = Vec::new();
            list.push(only);
            let mut default_for: Named<String> = Vec::new();
            let ghost first = default_for@;
            put(&mut default_for, TaskType::Targeting.as_str(), "default");
            let ghost second = default_for@;
            put(&mut default_for, TaskType::Assertion.as_str(), "default");
            let r = EndpointRegistry { endpoints: list, default_for };
            proof {
                assert forall|key: Seq<char>| #[trigger] r.route(key) == if key == "targeting"@
                    || key == "assertion"@ {
                    Some("default"@)
                } else {
                    None
                } by {
                    named::lemma_position(first, key);
                    assert(r.route(key) == route_in(default_for@, key));
                    assert(route_in(second, key) is Some || route_in(first, key) is None);
                }
            }
            return r;
        }
        let mut list: Vec<ResolvedEndpoint> = Vec::new();
        let mut default_for: Named<String> = Vec::new();
        let mut i: usize = 0;
        proof {
            let none: Seq<(String, String)> = Seq::empty();
            assert forall|key: Seq<char>| #[trigger] route_in(default_for@, key) is None by {
                named::lemma_position(none, key);
            }
            assert(endpoints@.take(0) =~= Seq::empty());
        }
        while i < endpoints.len()
            invariant
                i <= endpoints@.len(),
                list@.len() == i,
                named::distinct(default_for@),
                forall|k: int|
                    0 <= k < i ==> (#[trigger] list@[k]).is_from_config(
                        endpoints@[k].0,
                        endpoints@[k].1,
                        *env,
                    ),
                forall|key: Seq<char>| #[trigger]
                    route_in(default_for@, key) == claimed(endpoints@.take(i as int), key),
            decreases endpoints@.len() - i,
        {
            let name = &endpoints[i].0;
            let ec = &endpoints[i].1;
            list.push(ResolvedEndpoint::from_config(name, ec, env));
            let mut j: usize = 0;
            while j < ec.default_for.len()
                invariant
                    i < endpoints@.len(),
                    j <= ec.default_for@.len(),
                    named::distinct(default_for@),
                    *name == endpoints@[i as int].0,
                    *ec == endpoints@[i as int].1,
                    forall|key: Seq<char>| #[trigger]
                        route_in(default_for@, key) == if lists(ec.default_for@.take(j as int), key) {
                            Some(name@)
                        } else {
                            claimed(endpoints@.take(i as int), key)
                        },
                decreases ec.default_for@.len() - j,
            {
                put(&mut default_for, ec.default_for[j].as_str(), name.as_str());
                proof {
                    let old_list = ec.default_for@.take(j as int);
                    let new_list = ec.default_for@.take(j + 1);
                    assert forall|key: Seq<char>| #[trigger] lists(new_list, key) == (lists(
                        old_list,
                        key,
                    ) || key == ec.default_for@[j as int]@) by {
                        if lists(old_list, key) {
                            let k = choose|k: int| 0 <= k < old_list.len() && (#[trigger] old_list[k])@ == key;
                            assert(new_list[k]@ == key);
                        }
                        if key == ec.default_for@[j as int]@ {
                            assert(new_list[j as int]@ == key);
                        }
                        if lists(new_list, key) {
                            let k = choose|k: int| 0 <= k < new_list.len() && (#[trigger] new_list[k])@ == key;
                            if k < j {
                                assert(old_list[k]@ == key);
                            }
                        }
                    }
                }
                j += 1;
            }
            proof {
                assert(ec.default_for@.take(j as int) =~= ec.default_for@);
                assert(endpoints@.take(i + 1).drop_last() =~= endpoints@.take(i as int));
            }
            i += 1;
        }
        assert(endpoints@.take(i as int) =~= endpoints@);
        let r = EndpointRegistry { endpoints: list, default_for };
        assert forall|key: Seq<char>| #[trigger] r.route(key) == claimed(endpoints@, key) by {
            assert(r.route(key) == route_in(default_for@, key));
        }
        r
    }

    /// The position of the endpoint of that name.
    fn find(&self, name: &str) -> (r: Option<usize>)
        ensures
            match r {
                Some(i) => index_named(self.eps(), name@) == Some(i as int) && i < self.eps().len(),
                None => index_named(self.eps(), name@) is None,
            },
    {
        let mut i: usize = 0;
        while i < self.endpoints.len()
            invariant
                i <= self.endpoints@.len(),
                index_named(self.eps(), name@) == index_from(self.eps(), name@, i as int),
            decreases self.endpoints@.len() - i,
        {
            if text::same_text(self.endpoints[i].name.as_str(), name) {
                return Some(i);
            }
            i += 1;
        }
        None
    }

    /// The position of the endpoint for a name and a task.
    fn pick(&self, name: Option<&str>, task: TaskType) -> (r: Option<usize>)
        ensures
            match r {
                Some(i) => self.chosen(llm::option_view(name), task) == Some(i as int) && i
                    < self.eps().len(),
                None => self.chosen(llm::option_view(name), task) is None,
            },
    {
        if let Some(n) = name {
            if let Some(i) = self.find(n) {
                return Some(i);
            }
        }
        if let Some(n) = named::lookup(&self.default_for, task.as_str()) {
            if let Some(i) = self.find(n.as_str()) {
                return Some(i);
            }
        }
        let mut i: usize = 0;
        while i < self.endpoints.len()
            invariant
                i <= self.endpoints@.len(),
                llm_from(self.eps(), 0) == llm_from(self.eps(), i as int),
                self.chosen(llm::option_view(name), task) == llm_from(self.eps(), 0),
            decreases self.endpoints@.len() - i,
        {
            if self.endpoints[i].endpoint_type == EndpointType::Llm {
                return Some(i);
            }
            i += 1;
        }
        None
    }

    /// Resolves an endpoint by explicit name; `None` if there is none of that
    /// name.
    pub fn get(&self, name: &str) -> (r: Option<&ResolvedEndpoint>)
        ensures
            match r {
                Some(ep) => index_named(self.eps(), name@) matches Some(i) && *ep == self.eps()[i],
                None => index_named(self.eps(), name@) is None,
            },
    {
        match self.find(name) {
            Some(i) => Some(&self.endpoints[i]),
            None => None,
        }
    }

    /// Whether an endpoint can be resolved for a name and a task.
    pub fn can_resolve(&self, name: Option<&str>, task: TaskType) -> (r: bool)
        ensures
            r == self.chosen(llm::option_view(name), task) is Some,
    {
        self.pick(name, task).is_some()
    }

    /// Resolves the best endpoint for a given task type: the one that claims
    /// it, else the first LLM endpoint. There must be one.
    pub fn resolve_for_task(&self, task: TaskType) -> (r: &ResolvedEndpoint)
        requires
            self.for_task(task) is Some,
        ensures
            *r == self.eps()[self.for_task(task)->0],
    {
        self.resolve(None, task)
    }

    /// Resolves an endpoint: explicit name takes priority, then task-type
    /// routing, then the first LLM endpoint. There must be one.
    pub fn resolve(&self, name: Option<&str>, task: TaskType) -> (r: &ResolvedEndpoint)
        requires
            self.chosen(llm::option_view(name), task) is Some,
        ensures
            *r == self.eps()[self.chosen(llm::option_view(name), task)->0],
    {
        let i: usize = match self.pick(name, task) {
            Some(i) => i,
            None => 0,
        };
        &self.endpoints[i]
    }

    /// The endpoint that comes next in a chain.
    fn next_hop(&self, chain: &Vec<usize>) -> (r: Option<usize>)
        requires
            forall|k: int| 0 <= k < chain@.len() ==> (#[trigger] chain@[k]) < self.eps().len(),
        ensures
            match r {
                Some(j) => next_from(self.eps(), as_ints(chain@), 0, 0) == Some(j as int) && j
                    < self.eps().len(),
                None => next_from(self.eps(), as_ints(chain@), 0, 0) is None,
            },
    {
        let ghost ints = as_ints(chain@);
        let mut a: usize = 0;
        while a < chain.len()
            invariant
                a <= chain@.len(),
                ints == as_ints(chain@),
                forall|k: int| 0 <= k < chain@.len() ==> (#[trigger] chain@[k]) < self.eps().len(),
                next_from(self.eps(), ints, 0, 0) == next_from(self.eps(), ints, a as int, 0),
            decreases chain@.len() - a,
        {
            let fallbacks = &self.endpoints[chain[a]].fallbacks;
            let mut b: usize = 0;
            while b < fallbacks.len()
                invariant
                    a < chain@.len(),
                    ints == as_ints(chain@),
                    b <= fallbacks@.len(),
                    fallbacks@ == self.eps()[ints[a as int]].fallbacks@,
                    next_from(self.eps(), ints, 0, 0) == next_from(
                        self.eps(),
                        ints,
                        a as int,
                        b as int,
                    ),
                decreases fallbacks@.len() - b,
            {
                if let Some(j) = self.find(fallbacks[b].as_str()) {
                    if self.endpoints[j].endpoint_type == EndpointType::Llm && !holds(chain, j) {
                        return Some(j);
                    }
                }
                b += 1;
            }
            a += 1;
        }
        None
    }

    /// Resolves the ordered call chain for a task: the primary endpoint
    /// followed by its fallbacks and theirs (LLM endpoints only, each once,
    /// up to 8 of them). Every LLM call goes through this chain: the primary
    /// endpoint gets its own retry budget, then each fallback in turn, until
    /// one answers.
    pub fn resolve_chain(&self, name: Option<&str>, task: TaskType) -> (r: Vec<&ResolvedEndpoint>)
        requires
            self.chosen(llm::option_view(name), task) is Some,
        ensures
            ({
                let chain = chain_of(
                    self.eps(),
                    self.chosen(llm::option_view(name), task)->0,
                );
                &&& r@.len() == chain.len()
                &&& forall|k: int|
                    0 <= k < r@.len() ==> *(#[trigger] r@[k]) == self.eps()[chain[k]]
            }),
    {
        let primary: usize = match self.pick(name, task) {
            Some(i) => i,
            None => 0,
        };
        let mut chain: Vec<usize> = Vec::new();
        chain.push(primary);
        let mut hops: u32 = 8;
        let ghost wanted = chain_of(self.eps(), primary as int);
        assert(as_ints(chain@) =~= seq![primary as int]);
        let mut open: bool = true;
        while open && 0 < hops
            invariant
                hops <= 8,
                forall|k: int| 0 <= k < chain@.len() ==> (#[trigger] chain@[k]) < self.eps().len(),
                open ==> wanted == extended(self.eps(), as_ints(chain@), hops as nat),
                !open ==> wanted == as_ints(chain@),
            decreases hops,
        {
            match self.next_hop(&chain) {
                Some(j) => {
                    let ghost before = as_ints(chain@);
                    chain.push(j);
                    assert(as_ints(chain@) =~= before.push(j as int));
                    hops -= 1;
                },
                None => {
                    open = false;
                    hops -= 1;
                },
            }
        }
        let mut out: Vec<&ResolvedEndpoint> = Vec::new();
        let mut k: usize = 0;
        while k < chain.len()
            invariant
                k <= chain@.len(),
                wanted == as_ints(chain@),
                forall|n: int| 0 <= n < chain@.len() ==> (#[trigger] chain@[n]) < self.eps().len(),
                out@.len() == k,
                forall|n: int| 0 <= n < k ==> *(#[trigger] out@[n]) == self.eps()[wanted[n]],
            decreases chain@.len() - k,
        {
            out.push(&self.endpoints[chain[k]]);
            k += 1;
        }
        out
    }

    /// Returns the number of configured endpoints.
    pub fn len(&self) -> (r: usize)
        ensures
            r == self.eps().len(),
    {
        self.endpoints.len()
    }

    /// Returns true if no endpoints are configured.
    pub fn is_empty(&self) -> (r: bool)
        ensures
            r == (self.eps().len() == 0),
    {
        self.endpoints.len() == 0
    }
}

/// Positions as whole numbers.
pub open spec fn as_ints(s: Seq<usize>) -> Seq<int> {
    s.map_values(|i: usize| i as int)
}

/// Whether the list holds the position.
fn holds(list: &Vec<usize>, j: usize) -> (r: bool)
    ensures
        r == as_ints(list@).contains(j as int),
{
    let mut k: usize = 0;
    while k < list.len()
        invariant
            k <= list@.len(),
            forall|n: int| 0 <= n < k ==> list@[n] != j,
        decreases list@.len() - k,
    {
        if list[k] == j {
            assert(as_ints(list@)[k as int] == j as int);
            return true;
        }
        k += 1;
    }
    proof {
        if as_ints(list@).contains(j as int) {
            let n = as_ints(list@).index_of(j as int);
            assert(list@[n] == j);
        }
    }
    false
}

/// What a list of routes says of a key.
pub open spec fn route_in(s: Seq<(String, String)>, key: Seq<char>) -> Option<Seq<char>> {
    match named::value_of(s, key) {
        Some(name) => Some(name@),
        None => None,
    }
}

/// Routes a key to an endpoint.
fn put(list: &mut Named<String>, key: &str, name: &str)
    requires
        named::distinct(old(list)@),
    ensures
        named::distinct(final(list)@),
        forall|k: Seq<char>| #[trigger]
            route_in(final(list)@, k) == if k == key@ {
                Some(name@)
            } else {
                route_in(old(list)@, k)
            },
{
    let ghost before = list@;
    match named::find_name(list, key) {
        Some(i) => {
            list.set(i, (key.to_owned(), name.to_owned()));
            proof {
                let after = list@;
                assert forall|j: int| 0 <= j < after.len() implies (#[trigger] after[j]).0@
                    == before[j].0@ by {}
                assert forall|a: int, b: int| 0 <= a < b < after.len() implies (
                #[trigger] after[a]).0@ != (#[trigger] after[b]).0@ by {
                    assert(before[a].0@ != before[b].0@);
                }
                assert forall|k: Seq<char>| #[trigger] route_in(after, k) == if k == key@ {
                    Some(name@)
                } else {
                    route_in(before, k)
                } by {
                    named::lemma_position(before, k);
                    named::lemma_position(after, k);
                    if named::has_name(before, k) {
                        let p = named::position(before, k)->0;
                        assert(after[p].0@ == k);
                        assert(named::first_named(after, k, p));
                        named::lemma_position_is(after, k, p);
                        if k == key@ {
                            named::lemma_position_is(before, k, i as int);
                        }
                    } else if named::has_name(after, k) {
                        let p = named::position(after, k)->0;
                        assert(before[p].0@ == k);
                    }
                }
            }
        },
        None => {
            list.push((key.to_owned(), name.to_owned()));
            proof {
                let after = list@;
                let last = before.len() as int;
                assert forall|j: int| 0 <= j < last implies #[trigger] after[j] == before[j] by {}
                assert forall|k: Seq<char>| #[trigger] route_in(after, k) == if k == key@ {
                    Some(name@)
                } else {
                    route_in(before, k)
                } by {
                    named::lemma_position(before, k);
                    named::lemma_position(after, k);
                    if named::has_name(before, k) {
                        let p = named::position(before, k)->0;
                        assert(after[p].0@ == k);
                        assert(named::first_named(after, k, p));
                        named::lemma_position_is(after, k, p);
                    } else if k == key@ {
                        assert(after[last].0@ == k);
                        assert(named::first_named(after, k, last));
                        named::lemma_position_is(after, k, last);
                    } else if named::has_name(after, k) {
                        let p = named::position(after, k)->0;
                        assert(p < last ==> before[p].0@ == k);
                    }
                }
            }
        },
    }
}

/// Where the entry `b` of the fallback list of the member `a` leads, it leads
/// into the chain or to what is no LLM endpoint.
pub open spec fn followed(eps: Seq<ResolvedEndpoint>, chain: Seq<int>, a: int, b: int) -> bool {
    index_named(eps, eps[chain[a]].fallbacks@[b]@) matches Some(j) ==> eps[j].endpoint_type
        != EndpointType::Llm || chain.contains(j)
}

/// What `next_from` says.
proof fn lemma_next_from(eps: Seq<ResolvedEndpoint>, chain: Seq<int>, a: int, b: int)
    requires
        0 <= a,
        0 <= b,
    ensures
        match next_from(eps, chain, a, b) {
            Some(j) => 0 <= j < eps.len() && eps[j].endpoint_type == EndpointType::Llm
                && !chain.contains(j),
            None => forall|c: int, d: int|
                a <= c < chain.len() && 0 <= d < eps[chain[c]].fallbacks@.len() && (c > a || d >= b)
                    ==> #[trigger] followed(eps, chain, c, d),
        },
    decreases chain.len() - a, eps[chain[a]].fallbacks@.len() - b,
{
    if a < chain.len() {
        if b >= eps[chain[a]].fallbacks@.len() {
            lemma_next_from(eps, chain, a + 1, 0);
        } else {
            lemma_index_from(eps, eps[chain[a]].fallbacks@[b]@, 0);
            lemma_next_from(eps, chain, a, b + 1);
        }
    }
}

/// What `extended` says.
proof fn lemma_extended(eps: Seq<ResolvedEndpoint>, chain: Seq<int>, hops: nat)
    requires
        chain.no_duplicates(),
        forall|k: int| 0 <= k < chain.len() ==> 0 <= #[trigger] chain[k] < eps.len(),
    ensures
        ({
            let c = extended(eps, chain, hops);
            &&& chain.len() <= c.len() <= chain.len() + hops
            &&& c.take(chain.len() as int) == chain
            &&& c.no_duplicates()
            &&& forall|k: int| 0 <= k < c.len() ==> 0 <= #[trigger] c[k] < eps.len()
            &&& forall|k: int|
                chain.len() <= k < c.len() ==> eps[#[trigger] c[k]].endpoint_type
                    == EndpointType::Llm
            &&& c.len() < chain.len() + hops ==> forall|a: int, b: int|
                0 <= a < c.len() && 0 <= b < eps[c[a]].fallbacks@.len() ==> #[trigger] followed(
                    eps,
                    c,
                    a,
                    b,
                )
        }),
    decreases hops,
{
    assert(chain.take(chain.len() as int) =~= chain);
    if hops > 0 {
        lemma_next_from(eps, chain, 0, 0);
        if let Some(j) = next_from(eps, chain, 0, 0) {
            let longer = chain.push(j);
            lemma_extended(eps, longer, (hops - 1) as nat);
            let c = extended(eps, chain, hops);
            assert(c.take(longer.len() as int).take(chain.len() as int) =~= c.take(
                chain.len() as int,
            ));
            assert(longer.take(chain.len() as int) =~= chain);
            assert(c[chain.len() as int] == c.take(longer.len() as int)[chain.len() as int]);
        }
    }
}

/// A call chain begins with the primary endpoint, calls no endpoint twice and
/// no more than nine, and falls back to LLM endpoints only. Unless it is full,
/// it holds every LLM endpoint that a member names as a fallback.
pub proof fn law_call_chain(eps: Seq<ResolvedEndpoint>, primary: int)
    requires
        0 <= primary < eps.len(),
    ensures
        ({
            let c = chain_of(eps, primary);
            &&& 1 <= c.len() <= 9
            &&& c[0] == primary
            &&& c.no_duplicates()
            &&& forall|k: int| 0 <= k < c.len() ==> 0 <= #[trigger] c[k] < eps.len()
            &&& forall|k: int|
                1 <= k < c.len() ==> eps[#[trigger] c[k]].endpoint_type == EndpointType::Llm
            &&& c.len() < 9 ==> forall|a: int, b: int|
                0 <= a < c.len() && 0 <= b < eps[c[a]].fallbacks@.len() ==> #[trigger] followed(
                    eps,
                    c,
                    a,
                    b,
                )
        }),
{
    lemma_extended(eps, seq![primary], 8);
    let c = chain_of(eps, primary);
    assert(c.take(1)[0] == c[0]);
}

/// An endpoint that is asked for by name is the one that is called first,
/// whatever the routing says.
pub proof fn law_explicit_name_wins(registry: &EndpointRegistry, name: Seq<char>, task: TaskType)
    requires
        index_named(registry.eps(), name) is Some,
    ensures
        registry.chosen(Some(name), task) == index_named(registry.eps(), name),
        registry.eps()[registry.chosen(Some(name), task)->0].name@ == name,
{
    lemma_index_from(registry.eps(), name, 0);
}

/// What `llm_from` says.
proof fn lemma_llm_from(eps: Seq<ResolvedEndpoint>, i: int)
    requires
        0 <= i <= eps.len(),
    ensures
        match llm_from(eps, i) {
            Some(k) => i <= k < eps.len() && eps[k].endpoint_type == EndpointType::Llm && forall|j: int|
                i <= j < k ==> (#[trigger] eps[j]).endpoint_type != EndpointType::Llm,
            None => forall|j: int|
                i <= j < eps.len() ==> (#[trigger] eps[j]).endpoint_type != EndpointType::Llm,
        },
    decreases eps.len() - i,
{
    if i < eps.len() && eps[i].endpoint_type != EndpointType::Llm {
        lemma_llm_from(eps, i + 1);
    }
}

/// Where no configured endpoint is named, a task goes to the endpoint that it
/// is routed to, and only where there is none to the first LLM endpoint. So
/// something is called as long as one of them is there.
pub proof fn law_tasks_follow_their_route(
    registry: &EndpointRegistry,
    name: Option<Seq<char>>,
    task: TaskType,
)
    requires
        name matches Some(n) ==> forall|i: int|
            0 <= i < registry.eps().len() ==> (#[trigger] registry.eps()[i]).name@ != n,
    ensures
        ({
            let eps = registry.eps();
            let routed = |k: int|
                0 <= k < eps.len() && registry.route(task.key()) == Some(eps[k].name@);
            match registry.chosen(name, task) {
                Some(i) => {
                    &&& 0 <= i < eps.len()
                    &&& (exists|k: int| #[trigger] routed(k)) ==> routed(i)
                    &&& !(exists|k: int| #[trigger] routed(k)) ==> eps[i].endpoint_type
                        == EndpointType::Llm && forall|j: int|
                        0 <= j < i ==> (#[trigger] eps[j]).endpoint_type != EndpointType::Llm
                },
                None => forall|j: int|
                    0 <= j < eps.len() ==> !routed(j) && (#[trigger] eps[j]).endpoint_type
                        != EndpointType::Llm,
            }
        }),
{
    let eps = registry.eps();
    let routed = |k: int| 0 <= k < eps.len() && registry.route(task.key()) == Some(eps[k].name@);
    lemma_llm_from(eps, 0);
    if let Some(n) = name {
        lemma_index_from(eps, n, 0);
    }
    if let Some(n) = registry.route(task.key()) {
        lemma_index_from(eps, n, 0);
        if let Some(k) = index_named(eps, n) {
            assert(routed(k));
        }
    }
}

/// The endpoint that is the last to list a kind of task gets the tasks of that
/// kind, and a kind that no endpoint lists is routed nowhere.
pub proof fn law_last_claim_counts(endpoints: Seq<(String, EndpointConfig)>, key: Seq<char>)
    ensures
        match claimed(endpoints, key) {
            Some(name) => exists|i: int|
                0 <= i < endpoints.len() && #[trigger] endpoints[i].0@ == name && claims(
                    endpoints[i].1,
                    key,
                ) && forall|j: int|
                    i < j < endpoints.len() ==> !claims((#[trigger] endpoints[j]).1, key),
            None => forall|j: int|
                0 <= j < endpoints.len() ==> !claims((#[trigger] endpoints[j]).1, key),
        },
    decreases endpoints.len(),
{
    if endpoints.len() > 0 {
        let last = endpoints.len() - 1;
        let rest = endpoints.drop_last();
        if claims(endpoints[last].1, key) {
            assert(endpoints[last].0@ == endpoints.last().0@);
        } else {
            law_last_claim_counts(rest, key);
            if let Some(name) = claimed(rest, key) {
                let i = choose|i: int|
                    0 <= i < rest.len() && #[trigger] rest[i].0@ == name && claims(rest[i].1, key)
                        && forall|j: int|
                        i < j < rest.len() ==> !claims((#[trigger] rest[j]).1, key);
                assert(endpoints[i] == rest[i]);
                assert forall|j: int| i < j < endpoints.len() implies !claims(
                    (#[trigger] endpoints[j]).1,
                    key,
                ) by {
                    if j < last {
                        assert(rest[j] == endpoints[j]);
                    }
                }
            } else {
                assert forall|j: int| 0 <= j < endpoints.len() implies !claims(
                    (#[trigger] endpoints[j]).1,
                    key,
                ) by {
                    if j < last {
                        assert(rest[j] == endpoints[j]);
                    }
                }
            }
        }
    }
}

/// An endpoint lists a kind of task.
pub open spec fn claims(config: EndpointConfig, key: Seq<char>) -> bool {
    exists|k: int| 0 <= k < config.default_for@.len() && (#[trigger] config.default_for@[k])@ == key
}

/// The two kinds of task have the keys that an endpoint lists them by.
pub proof fn law_task_keys()
    ensures
        TaskType::Targeting.key() == "targeting"@,
        TaskType::Assertion.key() == "assertion"@,
{
}

/// An endpoint is found under its name, and of endpoints with one name the
/// first.
pub proof fn law_endpoints_are_found_by_name(eps: Seq<ResolvedEndpoint>, name: Seq<char>)
    ensures
        match index_named(eps, name) {
            Some(i) => 0 <= i < eps.len() && eps[i].name@ == name && forall|k: int|
                0 <= k < i ==> (#[trigger] eps[k]).name@ != name,
            None => forall|k: int| 0 <= k < eps.len() ==> (#[trigger] eps[k]).name@ != name,
        },
{
    lemma_first_named(eps, name, 0);
}

/// What `index_from` passes over has another name.
proof fn lemma_first_named(eps: Seq<ResolvedEndpoint>, name: Seq<char>, i: int)
    requires
        0 <= i <= eps.len(),
    ensures
        match index_from(eps, name, i) {
            Some(k) => i <= k < eps.len() && eps[k].name@ == name && forall|j: int|
                i <= j < k ==> (#[trigger] eps[j]).name@ != name,
            None => forall|j: int| i <= j < eps.len() ==> (#[trigger] eps[j]).name@ != name,
        },
    decreases eps.len() - i,
{
    if i < eps.len() && eps[i].name@ != name {
        lemma_first_named(eps, name, i + 1);
    }
}

/// The first fallback of the endpoint that is asked for is the one that is
/// called next, where it is an LLM endpoint and another one.
pub proof fn law_first_fallback_is_next(eps: Seq<ResolvedEndpoint>, primary: int, next: int)
    requires
        0 <= primary < eps.len(),
        eps[primary].fallbacks@.len() > 0,
        index_named(eps, eps[primary].fallbacks@[0]@) == Some(next),
        eps[next].endpoint_type == EndpointType::Llm,
        next != primary,
    ensures
        chain_of(eps, primary).len() >= 2,
        chain_of(eps, primary)[1] == next,
{
    let first = seq![primary];
    assert(first[0] == primary);
    assert(!first.contains(next));
    assert(next_from(eps, first, 0, 0) == Some(next));
    let longer = first.push(next);
    lemma_index_from(eps, eps[primary].fallbacks@[0]@, 0);
    lemma_extended(eps, longer, 7);
    let c = chain_of(eps, primary);
    assert(c == extended(eps, longer, 7));
    assert(c.take(2)[1] == c[1]);
}

/// An endpoint without fallbacks is called alone.
pub proof fn law_no_fallback_no_chain(eps: Seq<ResolvedEndpoint>, primary: int)
    requires
        0 <= primary < eps.len(),
        eps[primary].fallbacks@.len() == 0,
    ensures
        chain_of(eps, primary) == seq![primary],
{
    let first = seq![primary];
    assert(first[0] == primary);
    assert(next_from(eps, first, 1, 0) is None);
    assert(next_from(eps, first, 0, 0) is None);
}

/// Whether an endpoint is called because another names it: one that stands
/// before it in the chain has it among its fallbacks.
pub open spec fn named_before(eps: Seq<ResolvedEndpoint>, chain: Seq<int>, k: int) -> bool {
    exists|a: int, b: int|
        0 <= a < k && 0 <= b < eps[chain[a]].fallbacks@.len() && index_named(
            eps,
            (#[trigger] eps[chain[a]].fallbacks@[b])@,
        ) == Some(chain[k])
}

/// Nothing is called that is no fallback of what was called before.
pub proof fn law_chains_follow_fallbacks(eps: Seq<ResolvedEndpoint>, primary: int, k: int)
    requires
        0 <= primary < eps.len(),
        1 <= k < chain_of(eps, primary).len(),
    ensures
        named_before(eps, chain_of(eps, primary), k),
{
    let first = seq![primary];
    lemma_chain_named(eps, first, 8, k);
}

/// What follows in a chain is named by what stands before it.
proof fn lemma_chain_named(eps: Seq<ResolvedEndpoint>, chain: Seq<int>, hops: nat, k: int)
    requires
        chain.no_duplicates(),
        forall|i: int| 0 <= i < chain.len() ==> 0 <= #[trigger] chain[i] < eps.len(),
        chain.len() <= k < extended(eps, chain, hops).len(),
    ensures
        named_before(eps, extended(eps, chain, hops), k),
    decreases hops,
{
    if hops > 0 {
        lemma_next_from(eps, chain, 0, 0);
        if let Some(j) = next_from(eps, chain, 0, 0) {
            let longer = chain.push(j);
            let c = extended(eps, chain, hops);
            let (a, b) = lemma_next_named(eps, chain, 0, 0);
            lemma_extended(eps, longer, (hops - 1) as nat);
            if k == chain.len() {
                assert(c.take(longer.len() as int)[k] == c[k]);
                assert(c.take(longer.len() as int)[a] == c[a]);
                assert(longer[a] == chain[a]);
                assert(c[k] == j && c[a] == chain[a]);
                assert(index_named(eps, eps[c[a]].fallbacks@[b]@) == Some(c[k]));
            } else {
                lemma_chain_named(eps, longer, (hops - 1) as nat, k);
            }
        }
    }
}

/// Who names the next endpoint.
proof fn lemma_next_named(eps: Seq<ResolvedEndpoint>, chain: Seq<int>, a: int, b: int) -> (at: (
    int,
    int,
))
    requires
        0 <= a,
        0 <= b,
        next_from(eps, chain, a, b) is Some,
    ensures
        a <= at.0 < chain.len(),
        0 <= at.1 < eps[chain[at.0]].fallbacks@.len(),
        index_named(eps, eps[chain[at.0]].fallbacks@[at.1]@) == next_from(eps, chain, a, b),
    decreases chain.len() - a, eps[chain[a]].fallbacks@.len() - b,
{
    if b >= eps[chain[a]].fallbacks@.len() {
        lemma_next_named(eps, chain, a + 1, 0)
    } else {
        match index_named(eps, eps[chain[a]].fallbacks@[b]@) {
            Some(j) => if eps[j].endpoint_type == EndpointType::Llm && !chain.contains(j) {
                (a, b)
            } else {
                lemma_next_named(eps, chain, a, b + 1)
            },
            None => lemma_next_named(eps, chain, a, b + 1),
        }
    }
}

/// A configured endpoint has its own settings: its address without a slash at
/// the end, its prices, or none where none are given, and its own attempts, or
/// those of the environment.
pub proof fn law_endpoints_are_as_configured(
    ep: ResolvedEndpoint,
    name: String,
    ec: EndpointConfig,
    env: EnvSettings,
)
    requires
        ep.is_from_config(name, ec, env),
    ensures
        ep.name@ == name@,
        ep.vision == ec.vision && ep.endpoint_type == ec.endpoint_type,
        (ec.url matches Some(u) && u@.len() > 0 && u@.last() != '/') ==> ep.url@ == ec.url->0@,
        ep.url@.len() == 0 || ep.url@.last() != '/',
        ec.url is None && ec.endpoint_type != EndpointType::Llm ==> ep.url@.len() == 0,
        ec.pricing is None ==> ep.input_price_per_1m == 0 && ep.output_price_per_1m == 0
            && ep.per_call_price == 0,
        ec.pricing matches Some(p) ==> ep.input_price_per_1m == p.input_per_1m_tokens
            && ep.output_price_per_1m == p.output_per_1m_tokens && ep.per_call_price == p.per_call,
        ec.max_attempts matches Some(n) ==> ep.max_attempts == n,
        ec.max_attempts is None && env.llm_call_attempts is None ==> ep.max_attempts == 3,
        ep.fallbacks@ == ec.fallbacks@ && ep.model == ec.model && ep.api_key == ec.api_key,
{
    let url = match ec.url {
        Some(u) => u@,
        None => if ec.endpoint_type == EndpointType::Llm {
            llm::llm_url_of(env)
        } else {
            Seq::empty()
        },
    };
    text::law_trailing_characters_go(url, '/');
}

/// Without configured endpoints there is one, which serves every task.
pub proof fn law_one_endpoint_is_always_there(
    registry: &EndpointRegistry,
    fallback_llm: Option<LlmConfig>,
    env: EnvSettings,
    task: TaskType,
)
    requires
        registry.built_from(Seq::empty(), fallback_llm, env),
    ensures
        registry.eps().len() == 1,
        registry.for_task(task) == Some(0int),
        registry.eps()[0].endpoint_type == EndpointType::Llm,
        fallback_llm matches Some(l) ==> registry.eps()[0].url@ == l.url@
            && registry.eps()[0].model == Some(l.model),
        fallback_llm is None && env.llm_model is None ==> registry.eps()[0].model->0@
            == "deepseek"@,
{
    lemma_index_from(registry.eps(), "default"@, 0);
    lemma_llm_from(registry.eps(), 0);
    assert(registry.eps()[0].name@ == "default"@);
}

/// The endpoint that stands in where none is configured has every setting of
/// the LLM of the scenario, costs nothing and has no fallback.
pub proof fn law_standing_in_keeps_every_setting(ep: ResolvedEndpoint, llm: LlmConfig)
    requires
        ep.is_from_llm(llm),
    ensures
        ep.name@ == "default"@,
        ep.url@ == llm.url@ && ep.model->0@ == llm.model@ && ep.api_key == llm.api_key,
        ep.headers@ == llm.headers@ && ep.header_commands@ == llm.header_commands@,
        ep.max_attempts == llm.max_attempts && ep.provider == llm.provider,
        ep.deployment == llm.deployment && ep.api_version == llm.api_version,
        ep.auth == llm.auth && ep.aws == llm.aws,
        ep.endpoint_type == EndpointType::Llm && !ep.vision,
        ep.input_price_per_1m == 0 && ep.output_price_per_1m == 0 && ep.per_call_price == 0,
        ep.fallbacks@.len() == 0,
{
}

/// The endpoint of the environment has the settings of the environment and the
/// defaults.
pub proof fn law_environment_gives_an_endpoint(ep: ResolvedEndpoint, env: EnvSettings)
    requires
        ep.is_from_env(env),
    ensures
        ep.name@ == "default"@,
        ep.api_key == env.llm_api_key,
        env.llm_model matches Some(m) ==> ep.model->0@ == m@,
        env.llm_model is None ==> ep.model->0@ == "deepseek"@,
        env.llm_url is None ==> ep.url@ == "http://localhost:8080"@,
        env.llm_call_attempts is None ==> ep.max_attempts == 3,
        env.llm_headers is None ==> ep.headers@.len() == 0,
        ep.provider == Provider::Openai && ep.endpoint_type == EndpointType::Llm && !ep.vision,
        ep.input_price_per_1m == 0 && ep.output_price_per_1m == 0,
{
    llm::law_base_urls_end_without_slash(env, Seq::empty());
    if env.llm_headers is None && ep.headers@.len() > 0 {
        let k = ep.headers@[0].0@;
        assert(named::has_name(ep.headers@, k));
        assert(llm::texts_by_name(ep.headers@).contains_key(k));
    }
}

/// Every configured endpoint is there, in its place, under its name; tasks go
/// where the last endpoint that claims them stands.
pub proof fn law_every_configured_endpoint_is_there(
    registry: &EndpointRegistry,
    endpoints: Seq<(String, EndpointConfig)>,
    fallback_llm: Option<LlmConfig>,
    env: EnvSettings,
    i: int,
    key: Seq<char>,
)
    requires
        registry.built_from(endpoints, fallback_llm, env),
        0 <= i < endpoints.len(),
    ensures
        registry.eps().len() == endpoints.len(),
        registry.eps()[i].name@ == endpoints[i].0@,
        registry.eps()[i].endpoint_type == endpoints[i].1.endpoint_type,
        registry.eps()[i].vision == endpoints[i].1.vision,
        registry.eps()[i].fallbacks@ == endpoints[i].1.fallbacks@,
        claims(endpoints[i].1, key) && (forall|k: int|
            i < k < endpoints.len() ==> !claims((#[trigger] endpoints[k]).1, key))
            ==> registry.route(key) == Some(endpoints[i].0@),
        (forall|k: int| 0 <= k < endpoints.len() ==> !claims((#[trigger] endpoints[k]).1, key))
            ==> registry.route(key) is None,
{
    assert(registry.eps()[i].is_from_config(endpoints[i].0, endpoints[i].1, env));
    lemma_claimed_is(endpoints, key, i);
    assert(registry.route(key) == claimed(endpoints, key));
}

/// Who claims a task.
proof fn lemma_claimed_is(endpoints: Seq<(String, EndpointConfig)>, key: Seq<char>, i: int)
    requires
        0 <= i < endpoints.len(),
    ensures
        claims(endpoints[i].1, key) && (forall|k: int|
            i < k < endpoints.len() ==> !claims((#[trigger] endpoints[k]).1, key)) ==> claimed(
            endpoints,
            key,
        ) == Some(endpoints[i].0@),
        (forall|k: int| 0 <= k < endpoints.len() ==> !claims((#[trigger] endpoints[k]).1, key))
            ==> claimed(endpoints, key) is None,
    decreases endpoints.len(),
{
    let last = endpoints.len() - 1;
    let rest = endpoints.drop_last();
    assert(endpoints[last] == endpoints.last());
    assert(claims(endpoints[last].1, key) == lists(endpoints.last().1.default_for@, key));
    if i < last {
        lemma_claimed_is(rest, key, i);
        assert(rest[i] == endpoints[i]);
        assert forall|k: int| 0 <= k < rest.len() implies #[trigger] rest[k] == endpoints[k] by {}
    } else if rest.len() > 0 {
        lemma_claimed_is(rest, key, 0);
        assert forall|k: int| 0 <= k < rest.len() implies #[trigger] rest[k] == endpoints[k] by {}
    }
}

/// Without configured endpoints both tasks are routed to the one that stands
/// in, and nothing else is routed.
pub proof fn law_tasks_are_routed_to_the_stand_in(
    registry: &EndpointRegistry,
    fallback_llm: Option<LlmConfig>,
    env: EnvSettings,
    key: Seq<char>,
)
    requires
        registry.built_from(Seq::empty(), fallback_llm, env),
    ensures
        registry.route("targeting"@) == Some("default"@),
        registry.route("assertion"@) == Some("default"@),
        key != "targeting"@ && key != "assertion"@ ==> registry.route(key) is None,
{
}

} // verus!
