//! LLM client: configuration, request and reply of a chat completion, retries.
//!
//! The functions here decide what is sent and what a reply means. Sending is
//! left to the caller.
use vstd::prelude::*;
use vstd::string::StringExecFns;
use crate::costs;
use crate::costs::LlmResponse;
use crate::json;
use crate::json::Json;
use crate::named;
use crate::scenario::{AuthConfig, AuthMode, AwsConfig, Named, Provider};
use crate::text;

verus! {

/// What the environment variables of the tool say; `None` where one is unset.
#[derive(Debug, Clone)]
pub struct EnvSettings {
    /// `HARNESS_BROWSER_BASE_URL`.
    pub base_url: Option<String>,
    /// `HARNESS_LLM_TEST_URL`.
    pub llm_url: Option<String>,
    /// `HARNESS_LLM_TEST_MODEL`.
    pub llm_model: Option<String>,
    /// `HARNESS_LLM_API_KEY`.
    pub llm_api_key: Option<String>,
    /// `HARNESS_LLM_HEADERS`.
    pub llm_headers: Option<String>,
    /// `HARNESS_LLM_CALL_ATTEMPTS`.
    pub llm_call_attempts: Option<String>,
    /// `HARNESS_BROWSER_HEADLESS`.
    pub headless: Option<String>,
}

/// The value of a setting, or a default.
pub open spec fn or_default(value: Option<String>, default: Seq<char>) -> Seq<char> {
    match value {
        Some(v) => v@,
        None => default,
    }
}

/// The value of a setting, or a default.
pub fn value_or(value: &Option<String>, default: &str) -> (r: String)
    ensures
        r@ == or_default(*value, default@),
{
    match value {
        Some(v) => v.clone(),
        None => default.to_owned(),
    }
}

/// The target base URL, `http://localhost:4200` by default.
pub fn base_url(env: &EnvSettings) -> (r: String)
    ensures
        r@ == or_default(env.base_url, "http://localhost:4200"@),
{
    value_or(&env.base_url, "http://localhost:4200")
}

/// The LLM server base URL, `http://localhost:8080` by default, without
/// trailing slashes.
pub open spec fn llm_url_of(env: EnvSettings) -> Seq<char> {
    text::without_trailing(or_default(env.llm_url, "http://localhost:8080"@), '/')
}

/// The LLM server base URL, `http://localhost:8080` by default, without
/// trailing slashes.
pub fn llm_base_url(env: &EnvSettings) -> (r: String)
    ensures
        r@ == llm_url_of(*env),
{
    text::trim_trailing(value_or(&env.llm_url, "http://localhost:8080").as_str(), '/')
}

/// The LLM model name, `deepseek` by default.
pub fn llm_model(env: &EnvSettings) -> (r: String)
    ensures
        r@ == or_default(env.llm_model, "deepseek"@),
{
    value_or(&env.llm_model, "deepseek")
}

/// Whether a setting and its lower-case form ask for a headless browser.
pub fn asks_headless(value: &str, lower: &str) -> (r: bool)
    ensures
        r == (value@ != "0"@ && lower@ != "false"@),
{
    !text::same_text(value, "0") && !text::same_text(lower, "false")
}

/// Whether to run the browser headless: unless the setting is `0`, or `false`
/// in any case.
pub fn browser_headless(env: &EnvSettings) -> (r: bool)
    ensures
        r == match env.headless {
            Some(v) => v@ != "0"@ && text::lowered(v@) != "false"@,
            None => true,
        },
{
    match &env.headless {
        Some(v) => asks_headless(v.as_str(), text::lowercase(v.as_str()).as_str()),
        None => true,
    }
}

/// The attempts per LLM call that the environment asks for; 3 where it holds
/// no number.
pub open spec fn attempts_of(value: Option<String>) -> nat {
    match value {
        Some(v) => match text::parsed_uint(v@, u32::MAX as nat) {
            Some(n) => n,
            None => 3,
        },
        None => 3,
    }
}

/// The attempts per LLM call that the environment asks for; 3 where it holds
/// no number.
pub fn default_llm_attempts(env: &EnvSettings) -> (r: u32)
    ensures
        r == attempts_of(env.llm_call_attempts),
{
    match &env.llm_call_attempts {
        Some(v) => match text::parse_uint(v.as_str(), u32::MAX as u64) {
            Some(n) => n as u32,
            None => 3,
        },
        None => 3,
    }
}

/// The members of an object that are strings.
pub open spec fn string_members(j: Json) -> Map<Seq<char>, Seq<char>> {
    match j {
        Json::Obj(m) => Map::new(|k: Seq<char>| m.contains_key(k) && m[k] is Str, |k: Seq<char>| m[k]->Str_0),
        _ => Map::empty(),
    }
}

/// The headers that a text holds as a JSON object; none where it is not one.
pub open spec fn headers_in(raw: Seq<char>) -> Map<Seq<char>, Seq<char>> {
    match json::parsed_json(raw) {
        Ok(j) => string_members(j),
        Err(_) => Map::empty(),
    }
}

/// The names of a list with their texts.
pub open spec fn texts_by_name(s: Seq<(String, String)>) -> Map<Seq<char>, Seq<char>> {
    Map::new(
        |k: Seq<char>| named::has_name(s, k),
        |k: Seq<char>| named::value_of(s, k)->0@,
    )
}

/// The string members of an object, as a list.
pub fn header_list(value: &serde_json::Value) -> (r: Named<String>)
    ensures
        named::distinct(r@),
        texts_by_name(r@) == string_members(json::json_of(*value)),
{
    let mut out: Named<String> = Vec::new();
    let ghost wanted = string_members(json::json_of(*value));
    let entries = match json::object_entries(value) {
        Some(e) => e,
        None => {
            assert(texts_by_name(out@) =~= wanted);
            return out;
        },
    };
    let ghost m = json::json_of(*value)->Obj_0;
    let mut i: usize = 0;
    while i < entries.len()
        invariant
            i <= entries@.len(),
            named::distinct(entries@),
            json::json_of(*value) == Json::Obj(m),
            json::lists_object(entries@, m),
            named::distinct(out@),
            forall|a: int|
                0 <= a < out@.len() ==> m.contains_key((#[trigger] out@[a]).0@) && m[out@[a].0@]
                    == Json::Str(out@[a].1@),
            forall|a: int|
                0 <= a < out@.len() ==> exists|b: int|
                    0 <= b < i && (#[trigger] entries@[b]).0@ == (#[trigger] out@[a]).0@,
            forall|b: int|
                0 <= b < i && json::json_of((#[trigger] entries@[b]).1) is Str ==> named::has_name(
                    out@,
                    entries@[b].0@,
                ),
        decreases entries@.len() - i,
    {
        let ghost before = out@;
        let name = &entries[i].0;
        if let Some(s) = json::string_of(&entries[i].1) {
            out.push((name.clone(), s.to_owned()));
            assert(out@.last() == out@[before.len() as int]);
            assert forall|a: int, b: int| 0 <= a < b < out@.len() implies (#[trigger] out@[a]).0@
                != (#[trigger] out@[b]).0@ by {
                if b == before.len() {
                    assert(out@[a] == before[a]);
                    let c = choose|c: int|
                        0 <= c < i && (#[trigger] entries@[c]).0@ == before[a].0@;
                    assert(entries@[c].0@ != entries@[i as int].0@);
                } else {
                    assert(out@[a] == before[a] && out@[b] == before[b]);
                }
            }
            assert forall|a: int| 0 <= a < out@.len() implies m.contains_key(
                (#[trigger] out@[a]).0@,
            ) && m[out@[a].0@] == Json::Str(out@[a].1@) by {
                if a < before.len() {
                    assert(out@[a] == before[a]);
                } else {
                    assert(m.contains_key(entries@[i as int].0@));
                }
            }
            assert forall|a: int| 0 <= a < out@.len() implies exists|b: int|
                0 <= b < i + 1 && (#[trigger] entries@[b]).0@ == (#[trigger] out@[a]).0@ by {
                if a < before.len() {
                    assert(out@[a] == before[a]);
                    let c = choose|c: int|
                        0 <= c < i && (#[trigger] entries@[c]).0@ == before[a].0@;
                    assert(entries@[c].0@ == out@[a].0@);
                } else {
                    assert(entries@[i as int].0@ == out@[a].0@);
                }
            }
            assert forall|b: int|
                0 <= b < i + 1 && json::json_of((#[trigger] entries@[b]).1) is Str implies named::has_name(
                out@,
                entries@[b].0@,
            ) by {
                if b < i {
                    let a = choose|a: int|
                        0 <= a < before.len() && (#[trigger] before[a]).0@ == entries@[b].0@;
                    assert(out@[a].0@ == entries@[b].0@);
                } else {
                    assert(out@[before.len() as int].0@ == entries@[b].0@);
                }
            }
        }
        i += 1;
    }
    proof {
        assert forall|k: Seq<char>| texts_by_name(out@).contains_key(k) == wanted.contains_key(k) by {
            if named::has_name(out@, k) {
                let a = choose|a: int| 0 <= a < out@.len() && (#[trigger] out@[a]).0@ == k;
                assert(m[k] == Json::Str(out@[a].1@));
            }
            if wanted.contains_key(k) {
                assert(m.contains_key(k));
                assert(named::has_name(entries@, k));
                let b = choose|b: int| 0 <= b < entries@.len() && (#[trigger] entries@[b]).0@ == k;
                assert(json::json_of(entries@[b].1) == m[k]);
            }
        }
        assert forall|k: Seq<char>| #[trigger] texts_by_name(out@).contains_key(k) implies texts_by_name(
            out@,
        )[k] == wanted[k] by {
            named::lemma_position(out@, k);
            let a = named::position(out@, k)->0;
            assert(out@[a].0@ == k);
        }
        assert(texts_by_name(out@) =~= wanted);
    }
    out
}

/// Reads `HARNESS_LLM_HEADERS` (a JSON object) as headers; members that are
/// not strings are left out.
pub fn parse_headers_env(env: &EnvSettings) -> (r: Named<String>)
    ensures
        named::distinct(r@),
        texts_by_name(r@) == match env.llm_headers {
            Some(raw) => headers_in(raw@),
            None => Map::empty(),
        },
{
    match &env.llm_headers {
        Some(raw) => match json::parse_json(raw.as_str()) {
            Ok(value) => header_list(&value),
            Err(_) => {
                let none: Named<String> = Vec::new();
                assert(texts_by_name(none@) =~= Map::empty());
                none
            },
        },
        None => {
            let none: Named<String> = Vec::new();
            assert(texts_by_name(none@) =~= Map::empty());
            none
        },
    }
}

/// Configuration for the LLM client — bundles URL, model, auth, timeouts,
/// and provider-specific options into a single struct passed everywhere.
#[derive(Debug, Clone)]
pub struct LlmConfig {
    /// API base URL (without trailing `/v1/…`).
    pub url: String,
    /// Model name (e.g. `gpt-4o-mini`, `deepseek`).
    pub model: String,
    /// API key.
    pub api_key: Option<String>,
    /// Custom headers appended to every LLM request.
    pub headers: Named<String>,
    /// HTTP timeout in seconds.
    pub timeout_secs: u64,
    /// Sampling temperature, as the JSON number that is sent.
    pub temperature: serde_json::Value,
    /// Enable extended thinking / reasoning tokens.
    /// `None` = don't send any thinking key (provider default).
    pub thinking: Option<bool>,
    /// Provider-specific parameters merged into the request body
    /// (e.g. `effort = "high"` for Anthropic).
    pub model_params: Named<serde_json::Value>,
    /// Attempts for a single chat completion.
    pub max_attempts: u32,
    /// Wire protocol.
    pub provider: Provider,
    /// Azure deployment name; the default is the model.
    pub deployment: Option<String>,
    /// Azure API version.
    pub api_version: Option<String>,
    /// Authentication settings.
    pub auth: AuthConfig,
    /// Headers whose values are printed by commands.
    pub header_commands: Named<String>,
    /// AWS settings.
    pub aws: AwsConfig,
}

/// The temperature that is sent when none is set: what is read from `0.0`.
pub open spec fn zero_temperature() -> Json {
    match json::parsed_json("0.0"@) {
        Ok(j) => j,
        Err(_) => Json::Null,
    }
}

/// The temperature that is sent when none is set.
pub fn default_temperature() -> (r: serde_json::Value)
    ensures
        json::json_of(r) == zero_temperature(),
{
    match json::parse_json("0.0") {
        Ok(v) => v,
        Err(_) => json::json_null(),
    }
}

impl LlmConfig {
    /// Nothing is set but the protocol, the temperature and the limits.
    pub open spec fn is_plain(&self) -> bool {
        &&& self.timeout_secs == 60
        &&& json::json_of(self.temperature) == zero_temperature()
        &&& self.thinking is None
        &&& self.model_params@.len() == 0
        &&& self.provider == Provider::Openai
        &&& self.deployment is None
        &&& self.api_version is None
        &&& self.auth.is_default()
        &&& self.header_commands@.len() == 0
        &&& self.aws.is_default()
    }

    /// Build a config from environment settings, falling back to safe values
    /// where none are set.
    pub fn from_env(env: &EnvSettings) -> (r: Self)
        ensures
            r.is_plain(),
            r.url@ == llm_url_of(*env),
            r.model@ == or_default(env.llm_model, "deepseek"@),
            r.api_key == env.llm_api_key,
            named::distinct(r.headers@),
            texts_by_name(r.headers@) == match env.llm_headers {
                Some(raw) => headers_in(raw@),
                None => Map::empty(),
            },
            r.max_attempts == attempts_of(env.llm_call_attempts),
    {
        LlmConfig {
            url: llm_base_url(env),
            model: llm_model(env),
            api_key: named::copy_option(&env.llm_api_key),
            headers: parse_headers_env(env),
            max_attempts: default_llm_attempts(env),
            ..LlmConfig::default()
        }
    }
}

impl Default for LlmConfig {
    fn default() -> (r: Self)
        ensures
            r.is_plain(),
            r.url@.len() == 0,
            r.model@.len() == 0,
            r.api_key is None,
            r.headers@.len() == 0,
            r.max_attempts == 3,
    {
        LlmConfig {
            url: String::new(),
            model: String::new(),
            api_key: None,
            headers: Vec::new(),
            timeout_secs: 60,
            temperature: default_temperature(),
            thinking: None,
            model_params: Vec::new(),
            max_attempts: 3,
            provider: Provider::Openai,
            deployment: None,
            api_version: None,
            auth: AuthConfig::default(),
            header_commands: Vec::new(),
            aws: AwsConfig::default(),
        }
    }
}

/// A text as a view, if there is one.
pub open spec fn option_view(value: Option<&str>) -> Option<Seq<char>> {
    match value {
        Some(v) => Some(v@),
        None => None,
    }
}

/// The content of the user message: plain text, or text and image parts.
pub open spec fn user_content(user: Seq<char>, image: Option<Seq<char>>) -> Json {
    match image {
        None => Json::Str(user),
        Some(url) => Json::Arr(
            seq![
                json::object(seq![("type"@, Json::Str("text"@)), ("text"@, Json::Str(user))]),
                json::object(
                    seq![
                        ("type"@, Json::Str("image_url"@)),
                        ("image_url"@, json::object(seq![("url"@, Json::Str(url))])),
                    ],
                ),
            ],
        ),
    }
}

/// A message of the given role.
pub open spec fn message(role: Seq<char>, content: Json) -> Json {
    json::object(seq![("role"@, Json::Str(role)), ("content"@, content)])
}

/// The messages of a chat.
pub open spec fn messages_of(system: Seq<char>, user: Seq<char>, image: Option<Seq<char>>) -> Json {
    Json::Arr(
        seq![
            message("system"@, Json::Str(system)),
            message("user"@, user_content(user, image)),
        ],
    )
}

/// Builds the chat messages array. Text-only messages keep the plain string
/// `content` shape; vision calls use the content-part array with an image
/// URL.
pub fn build_messages(system: &str, user: &str, image_data_url: Option<&str>) -> (r:
    serde_json::Value)
    ensures
        json::json_of(r) == messages_of(system@, user@, option_view(image_data_url)),
{
    let content = match image_data_url {
        None => json::json_string(user),
        Some(url) => json::array2(
            json::object2("type", json::json_string("text"), "text", json::json_string(user)),
            json::object2(
                "type",
                json::json_string("image_url"),
                "image_url",
                json::object1("url", json::json_string(url)),
            ),
        ),
    };
    json::array2(
        json::object2("role", json::json_string("system"), "content", json::json_string(system)),
        json::object2("role", json::json_string("user"), "content", content),
    )
}

/// The member that enables or disables thinking, if either is asked for.
pub open spec fn thinking_member(thinking: Option<bool>) -> Seq<(Seq<char>, Json)> {
    match thinking {
        Some(on) => seq![
            (
                "thinking"@,
                json::object(
                    seq![
                        (
                            "type"@,
                            Json::Str(
                                if on {
                                    "enabled"@
                                } else {
                                    "disabled"@
                                },
                            ),
                        ),
                    ],
                ),
            ),
        ],
        None => Seq::empty(),
    }
}

/// The members of a chat request. Provider-specific parameters come last and
/// so replace members of their name.
pub open spec fn payload_members(
    llm: LlmConfig,
    system: Seq<char>,
    user: Seq<char>,
    image: Option<Seq<char>>,
) -> Seq<(Seq<char>, Json)> {
    seq![
        ("model"@, Json::Str(llm.model@)),
        ("messages"@, messages_of(system, user, image)),
        ("max_tokens"@, Json::UInt(4096)),
        ("temperature"@, json::json_of(llm.temperature)),
    ] + thinking_member(llm.thinking) + json::entries_of(llm.model_params@)
}

/// Appends copies of members.
pub(crate) fn append_entries(
    entries: &mut Vec<(String, serde_json::Value)>,
    more: &Named<serde_json::Value>,
)
    ensures
        json::entries_of(final(entries)@) == json::entries_of(old(entries)@) + json::entries_of(more@),
{
    let ghost before = json::entries_of(entries@);
    let mut i: usize = 0;
    assert(json::entries_of(entries@) =~= before + json::entries_of(more@).take(0));
    while i < more.len()
        invariant
            i <= more@.len(),
            json::entries_of(entries@) == before + json::entries_of(more@).take(i as int),
        decreases more@.len() - i,
    {
        let ghost now = json::entries_of(entries@);
        entries.push((more[i].0.clone(), more[i].1.clone()));
        assert(json::entries_of(entries@) =~= now.push(json::entries_of(more@)[i as int]));
        assert(json::entries_of(entries@) =~= before + json::entries_of(more@).take(i + 1));
        i += 1;
    }
    assert(json::entries_of(more@).take(i as int) =~= json::entries_of(more@));
}

/// Builds the body of a chat completion request.
pub fn chat_payload(llm: &LlmConfig, system: &str, user: &str, image_data_url: Option<&str>) -> (r:
    serde_json::Value)
    ensures
        json::json_of(r) == json::object(
            payload_members(*llm, system@, user@, option_view(image_data_url)),
        ),
{
    let mut entries = vec![
        json::entry("model", json::json_string(llm.model.as_str())),
        json::entry("messages", build_messages(system, user, image_data_url)),
        json::entry("max_tokens", json::json_uint(4096)),
        json::entry("temperature", llm.temperature.clone()),
    ];
    let ghost base = seq![
        ("model"@, Json::Str(llm.model@)),
        ("messages"@, messages_of(system@, user@, option_view(image_data_url))),
        ("max_tokens"@, Json::UInt(4096)),
        ("temperature"@, json::json_of(llm.temperature)),
    ];
    assert(json::entries_of(entries@) =~= base);
    if let Some(think) = llm.thinking {
        let kind = if think {
            "enabled"
        } else {
            "disabled"
        };
        entries.push(json::entry("thinking", json::object1("type", json::json_string(kind))));
    }
    assert(json::entries_of(entries@) =~= base + thinking_member(llm.thinking));
    append_entries(&mut entries, &llm.model_params);
    json::json_object(entries)
}

/// A request to be sent as a POST.
pub struct HttpRequest {
    /// Where it goes.
    pub url: String,
    /// Its headers, in order.
    pub headers: Named<String>,
    /// Its body.
    pub body: serde_json::Value,
}

/// The names and values of headers.
pub open spec fn header_pairs(headers: Seq<(String, String)>) -> Seq<(Seq<char>, Seq<char>)> {
    headers.map_values(|h: (String, String)| (h.0@, h.1@))
}

/// Where a chat completion request goes.
pub open spec fn chat_url_of(llm: LlmConfig) -> Seq<char> {
    match llm.provider {
        Provider::Azure => text::without_trailing(llm.url@, '/') + "/openai/deployments/"@
            + or_default(llm.deployment, llm.model@) + "/chat/completions?api-version="@
            + or_default(llm.api_version, "2024-10-21"@),
        _ => llm.url@ + "/v1/chat/completions"@,
    }
}

/// Where a chat completion request goes: an Azure deployment, or the OpenAI
/// path below the base URL.
pub fn chat_url(llm: &LlmConfig) -> (r: String)
    ensures
        r@ == chat_url_of(*llm),
{
    match llm.provider {
        Provider::Azure => {
            let mut url = text::trim_trailing(llm.url.as_str(), '/');
            url.append("/openai/deployments/");
            url.append(value_or(&llm.deployment, llm.model.as_str()).as_str());
            url.append("/chat/completions?api-version=");
            url.append(value_or(&llm.api_version, "2024-10-21").as_str());
            url
        },
        _ => {
            let mut url = llm.url.clone();
            url.append("/v1/chat/completions");
            url
        },
    }
}

/// The headers that carry the credential. An API key goes to the header that
/// the settings name, to `api-key` on Azure and else, like every token, to
/// `Authorization` as a bearer token.
pub open spec fn auth_pairs(llm: LlmConfig, credential: Option<Seq<char>>) -> Seq<
    (Seq<char>, Seq<char>),
> {
    match credential {
        None => Seq::empty(),
        Some(key) => if llm.auth.mode == AuthMode::ApiKey && llm.auth.api_key_header is Some {
            seq![(llm.auth.api_key_header->0@, key)]
        } else if llm.auth.mode == AuthMode::ApiKey && llm.provider == Provider::Azure {
            seq![("api-key"@, key)]
        } else {
            seq![("Authorization"@, "Bearer "@ + key)]
        },
    }
}

/// Appends copies of headers.
pub(crate) fn append_headers(headers: &mut Named<String>, more: &Named<String>)
    ensures
        header_pairs(final(headers)@) == header_pairs(old(headers)@) + header_pairs(more@),
{
    let ghost before = header_pairs(headers@);
    let mut i: usize = 0;
    assert(header_pairs(headers@) =~= before + header_pairs(more@).take(0));
    while i < more.len()
        invariant
            i <= more@.len(),
            header_pairs(headers@) == before + header_pairs(more@).take(i as int),
        decreases more@.len() - i,
    {
        let ghost now = header_pairs(headers@);
        headers.push((more[i].0.clone(), more[i].1.clone()));
        assert(header_pairs(headers@) =~= now.push(header_pairs(more@)[i as int]));
        assert(header_pairs(headers@) =~= before + header_pairs(more@).take(i + 1));
        i += 1;
    }
    assert(header_pairs(more@).take(i as int) =~= header_pairs(more@));
}

/// Builds the request of a chat completion. `credential` is the API key or
/// the bearer token, `command_headers` what the header commands printed.
pub fn chat_request(
    llm: &LlmConfig,
    credential: Option<&str>,
    command_headers: &Named<String>,
    system: &str,
    user: &str,
    image_data_url: Option<&str>,
) -> (r: HttpRequest)
    ensures
        r.url@ == chat_url_of(*llm),
        header_pairs(r.headers@) == seq![("Content-Type"@, "application/json"@)] + auth_pairs(
            *llm,
            option_view(credential),
        ) + header_pairs(llm.headers@) + header_pairs(command_headers@),
        json::json_of(r.body) == json::object(
            payload_members(*llm, system@, user@, option_view(image_data_url)),
        ),
{
    let mut headers: Named<String> = Vec::new();
    headers.push(("Content-Type".to_owned(), "application/json".to_owned()));
    assert(header_pairs(headers@) =~= seq![("Content-Type"@, "application/json"@)]);
    if let Some(key) = credential {
        match &llm.auth.api_key_header {
            Some(name) if llm.auth.mode == AuthMode::ApiKey => {
                headers.push((name.clone(), key.to_owned()));
            },
            _ => {
                if llm.auth.mode == AuthMode::ApiKey && llm.provider == Provider::Azure {
                    headers.push(("api-key".to_owned(), key.to_owned()));
                } else {
                    let mut value = "Bearer ".to_owned();
                    value.append(key);
                    headers.push(("Authorization".to_owned(), value));
                }
            },
        }
    }
    assert(header_pairs(headers@) =~= seq![("Content-Type"@, "application/json"@)] + auth_pairs(
        *llm,
        option_view(credential),
    ));
    append_headers(&mut headers, &llm.headers);
    append_headers(&mut headers, command_headers);
    HttpRequest {
        url: chat_url(llm),
        headers,
        body: chat_payload(llm, system, user, image_data_url),
    }
}

/// Error of a single LLM request attempt, distinguishing transient failures
/// (worth retrying) from deterministic configuration errors (fail
/// immediately).
#[allow(inconsistent_fields)]
#[derive(Debug, Clone)]
pub enum LlmCallError {
    /// Transport-level failure (connect, timeout, TLS, …).
    Transport {
        /// What the transport said.
        message: String,
    },
    /// The credential could not be obtained or the request not be signed.
    Auth {
        /// What went wrong.
        message: String,
    },
    /// Non-success HTTP status with a body snippet.
    Http {
        /// HTTP status.
        status: u16,
        /// Response body.
        body: String,
    },
    /// Success status but nothing in the body.
    EmptyBody {
        /// HTTP status.
        status: u16,
    },
    /// Success status but the body is not valid JSON.
    InvalidJson {
        /// HTTP status.
        status: u16,
        /// What the JSON reader said.
        detail: String,
        /// Response body.
        body: String,
    },
    /// Valid JSON but missing `choices[0].message.content`.
    MissingContent {
        /// The JSON text.
        json: String,
    },
}

impl LlmCallError {
    /// The quoted body can be cut after its first 300 bytes.
    pub open spec fn quotable(&self) -> bool {
        match self {
            LlmCallError::Http { body, .. } => text::can_cut(body@, 300),
            LlmCallError::InvalidJson { body, .. } => text::can_cut(body@, 300),
            LlmCallError::MissingContent { json } => text::can_cut(json@, 300),
            _ => true,
        }
    }

    /// The error as a message.
    pub open spec fn text(&self) -> Seq<char> {
        match self {
            LlmCallError::Transport { message } => "LLM HTTP request failed: "@ + message@,
            LlmCallError::Auth { message } => "LLM authentication failed: "@ + message@,
            LlmCallError::Http { status, body } => "LLM endpoint returned HTTP "@ + text::dec(
                *status as nat,
            ) + ": "@ + text::truncated(body@, 300),
            LlmCallError::EmptyBody { status } => "LLM endpoint returned HTTP "@ + text::dec(
                *status as nat,
            ) + " with an empty response (gateway warm-up?)"@,
            LlmCallError::InvalidJson { status, detail, body } => "LLM endpoint returned HTTP "@
                + text::dec(*status as nat) + " with non-JSON body ("@ + detail@ + "): "@
                + text::truncated(body@, 300),
            LlmCallError::MissingContent { json } =>
                "LLM response missing choices[0].message.content: "@ + text::truncated(json@, 300),
        }
    }

    /// The error as a message. The quoted body is cut after 300 bytes, which
    /// must be where a character ends.
    pub fn to_text(&self) -> (r: String)
        requires
            self.quotable(),
        ensures
            r@ == self.text(),
    {
        match self {
            LlmCallError::Transport { message } => {
                let mut s = "LLM HTTP request failed: ".to_owned();
                s.append(message.as_str());
                s
            },
            LlmCallError::Auth { message } => {
                let mut s = "LLM authentication failed: ".to_owned();
                s.append(message.as_str());
                s
            },
            LlmCallError::Http { status, body } => {
                let mut s = "LLM endpoint returned HTTP ".to_owned();
                s.append(text::decimal(*status as u128).as_str());
                s.append(": ");
                s.append(text::truncate(body.as_str(), 300).as_str());
                s
            },
            LlmCallError::EmptyBody { status } => {
                let mut s = "LLM endpoint returned HTTP ".to_owned();
                s.append(text::decimal(*status as u128).as_str());
                s.append(" with an empty response (gateway warm-up?)");
                s
            },
            LlmCallError::InvalidJson { status, detail, body } => {
                let mut s = "LLM endpoint returned HTTP ".to_owned();
                s.append(text::decimal(*status as u128).as_str());
                s.append(" with non-JSON body (");
                s.append(detail.as_str());
                s.append("): ");
                s.append(text::truncate(body.as_str(), 300).as_str());
                s
            },
            LlmCallError::MissingContent { json } => {
                let mut s = "LLM response missing choices[0].message.content: ".to_owned();
                s.append(text::truncate(json.as_str(), 300).as_str());
                s
            },
        }
    }

    /// The status is worth another attempt.
    pub open spec fn transient_status(status: u16) -> bool {
        status == 408 || status == 429 || 500 <= status < 600
    }

    /// Another attempt may succeed.
    pub open spec fn transient(&self) -> bool {
        match self {
            LlmCallError::Transport { .. } => true,
            LlmCallError::Auth { .. } => false,
            LlmCallError::Http { status, .. } => Self::transient_status(*status),
            LlmCallError::EmptyBody { status } => *status == 200 || Self::transient_status(*status),
            LlmCallError::InvalidJson { status, .. } => *status == 200 || Self::transient_status(
                *status,
            ),
            LlmCallError::MissingContent { .. } => true,
        }
    }

    /// Whether another attempt may succeed. Network errors, rate limits,
    /// server errors, and 200-with-garbage responses can be transient on
    /// flaky gateways; auth/not-found errors are deterministic.
    pub fn is_retryable(&self) -> (r: bool)
        ensures
            r == self.transient(),
    {
        match self {
            LlmCallError::Transport { .. } => true,
            LlmCallError::Auth { .. } => false,
            LlmCallError::Http { status, .. } => {
                *status == 408 || *status == 429 || (500 <= *status && *status < 600)
            },
            LlmCallError::EmptyBody { status } => {
                *status == 200 || *status == 408 || *status == 429 || (500 <= *status && *status
                    < 600)
            },
            LlmCallError::InvalidJson { status, .. } => {
                *status == 200 || *status == 408 || *status == 429 || (500 <= *status && *status
                    < 600)
            },
            LlmCallError::MissingContent { .. } => true,
        }
    }
}

/// The answer in a chat completion document, if it has one.
pub open spec fn answer_in(reply: Json) -> Option<Seq<char>> {
    reply.member("choices"@).element(0).member("message"@).member("content"@).string()
}

/// Reads a chat completion document: the answer and its usage, or the
/// document as text where the answer is missing.
pub fn read_answer(value: &serde_json::Value) -> (r: Result<LlmResponse, LlmCallError>)
    ensures
        match r {
            Ok(resp) => answer_in(json::json_of(*value)) == Some(resp.content@) && resp.usage
                == costs::usage_in(json::json_of(*value)),
            Err(LlmCallError::MissingContent { json: t }) => answer_in(
                json::json_of(*value),
            ) is None && t@ == json::json_text(json::json_of(*value)),
            Err(_) => false,
        },
{
    let usage = costs::extract_usage(value);
    let first = json::element_of(json::member_of(value, "choices"), 0);
    let content = json::member_of(json::member_of(first, "message"), "content");
    match json::string_of(content) {
        Some(s) => Ok(LlmResponse { content: s.to_owned(), usage }),
        None => Err(LlmCallError::MissingContent { json: json::value_text(value) }),
    }
}

/// A reply has nothing to read: its status says failure, or it is an empty
/// 200, which gateways send while they warm up.
pub open spec fn refused(status: u16, body: Seq<char>) -> bool {
    !(200 <= status < 300) || status == 200 && body.len() == 0
}

/// What a reply of an endpoint says.
pub open spec fn reads_reply(
    r: Result<LlmResponse, LlmCallError>,
    status: u16,
    body: Seq<char>,
) -> bool {
    match r {
        Ok(resp) => {
            &&& !refused(status, body)
            &&& json::parsed_json(body) matches Ok(j) && answer_in(j) == Some(resp.content@)
                && resp.usage == costs::usage_in(j)
        },
        Err(LlmCallError::Http { status: s, body: b }) => {
            &&& !(200 <= status < 300)
            &&& s == status
            &&& b@ == body
        },
        Err(LlmCallError::EmptyBody { status: s }) => {
            &&& status == 200
            &&& body.len() == 0
            &&& s == status
        },
        Err(LlmCallError::InvalidJson { status: s, detail, body: b }) => {
            &&& !refused(status, body)
            &&& json::parsed_json(body) == Err::<Json, Seq<char>>(detail@)
            &&& s == status
            &&& b@ == body
        },
        Err(LlmCallError::MissingContent { json: t }) => {
            &&& !refused(status, body)
            &&& json::parsed_json(body) matches Ok(j) && answer_in(j) is None && t@
                == json::json_text(j)
        },
        Err(_) => false,
    }
}

/// Reads the reply to a chat completion request.
pub fn read_reply(status: u16, body: String) -> (r: Result<LlmResponse, LlmCallError>)
    ensures
        reads_reply(r, status, body@),
{
    if status < 200 || 300 <= status {
        return Err(LlmCallError::Http { status, body });
    }
    if status == 200 && body.as_str().is_empty() {
        return Err(LlmCallError::EmptyBody { status });
    }
    match json::parse_json(body.as_str()) {
        Ok(value) => read_answer(&value),
        Err(detail) => Err(LlmCallError::InvalidJson { status, detail, body }),
    }
}

/// What follows an attempt.
pub enum ChatNext {
    /// The call is answered.
    Answer(LlmResponse),
    /// Try again after this many milliseconds.
    Retry(u64),
    /// The call has failed.
    GiveUp(String),
}

/// The attempts of one chat completion.
pub struct ChatRun {
    attempts: u32,
    max_attempts: u32,
}

/// The message of a failed call.
pub open spec fn gave_up_text(attempts: nat, url: Seq<char>, last: Seq<char>) -> Seq<char> {
    "LLM call failed after "@ + text::dec(attempts) + " attempt(s) (endpoint "@ + url + "): "@
        + last
}

/// The message of a failed call.
fn gave_up(attempts: u32, url: &str, last: &str) -> (r: String)
    ensures
        r@ == gave_up_text(attempts as nat, url@, last@),
{
    let mut s = "LLM call failed after ".to_owned();
    s.append(text::decimal(attempts as u128).as_str());
    s.append(" attempt(s) (endpoint ");
    s.append(url);
    s.append("): ");
    s.append(last);
    s
}

/// What follows a call that is the `made`-th of those that are allowed.
pub open spec fn follows_call(
    r: ChatNext,
    made: nat,
    allowed: nat,
    url: Seq<char>,
    outcome: Result<LlmResponse, LlmCallError>,
) -> bool {
    match outcome {
        Ok(resp) => r == ChatNext::Answer(resp),
        Err(e) => if made < allowed && e.transient() {
            r == ChatNext::Retry((500 * made) as u64)
        } else {
            r matches ChatNext::GiveUp(message) && message@ == gave_up_text(made, url, e.text())
        },
    }
}

impl ChatRun {
    /// Attempts made so far.
    pub closed spec fn made(&self) -> nat {
        self.attempts as nat
    }

    /// Attempts allowed.
    pub closed spec fn allowed(&self) -> nat {
        self.max_attempts as nat
    }

    /// A call of which no attempt was made. Fails at once where none is
    /// allowed.
    pub fn start(llm: &LlmConfig) -> (r: Result<Self, String>)
        ensures
            match r {
                Ok(run) => llm.max_attempts > 0 && run.made() == 0 && run.allowed()
                    == llm.max_attempts,
                Err(message) => llm.max_attempts == 0 && message@ == gave_up_text(
                    0,
                    llm.url@,
                    "LLM call failed"@,
                ),
            },
    {
        if llm.max_attempts == 0 {
            return Err(gave_up(0, llm.url.as_str(), "LLM call failed"));
        }
        Ok(ChatRun { attempts: 0, max_attempts: llm.max_attempts })
    }

    /// Takes the outcome of an attempt. A transient failure is tried again
    /// after half a second for each attempt made; a deterministic one, and
    /// the last allowed attempt, end the call.
    pub fn attempted(&mut self, url: &str, outcome: Result<LlmResponse, LlmCallError>) -> (r: ChatNext)
        requires
            old(self).made() < old(self).allowed(),
            outcome matches Err(e) ==> e.quotable(),
        ensures
            final(self).made() == old(self).made() + 1,
            final(self).allowed() == old(self).allowed(),
            follows_call(r, final(self).made(), final(self).allowed(), url@, outcome),
    {
        self.attempts = self.attempts + 1;
        match outcome {
            Ok(resp) => ChatNext::Answer(resp),
            Err(e) => {
                if self.attempts < self.max_attempts && e.is_retryable() {
                    ChatNext::Retry(500 * (self.attempts as u64))
                } else {
                    ChatNext::GiveUp(gave_up(self.attempts, url, e.to_text().as_str()))
                }
            },
        }
    }
}

/// A model parameter is in the body of every chat request as it was given,
/// whatever the body holds otherwise under its name.
pub proof fn law_model_params_win(
    llm: LlmConfig,
    system: Seq<char>,
    user: Seq<char>,
    image: Option<Seq<char>>,
    i: int,
)
    requires
        0 <= i < llm.model_params@.len(),
        named::distinct(llm.model_params@),
    ensures
        json::object(payload_members(llm, system, user, image)).member(
            llm.model_params@[i].0@,
        ) == json::json_of(llm.model_params@[i].1),
{
    let all = payload_members(llm, system, user, image);
    let params = json::entries_of(llm.model_params@);
    let first = all.len() - params.len();
    assert forall|k: int| first + i < k < all.len() implies (#[trigger] all[k]).0 != all[first
        + i].0 by {
        assert(all[k] == params[k - first]);
        assert(llm.model_params@[k - first].0@ != llm.model_params@[i].0@);
    }
    assert(all[first + i] == params[i]);
    json::lemma_member(all, first + i);
}

/// A request that the endpoint refuses is not repeated, unless the refusal
/// says that it took too long or came too often.
pub proof fn law_refusals_are_final(e: LlmCallError)
    requires
        e matches LlmCallError::Http { status, .. } ==> 400 <= status < 500 && status != 408
            && status != 429,
        e is Http || e is Auth,
    ensures
        !e.transient(),
{
}

/// Without a picture a chat request has the prompt as a plain string, whatever
/// model it goes to.
pub proof fn law_text_requests_stay_plain(llm: LlmConfig, system: Seq<char>, user: Seq<char>)
    requires
        !named::has_name(llm.model_params@, "messages"@),
    ensures
        json::object(payload_members(llm, system, user, None)).member("messages"@).element(1).member(
            "content"@,
        ) == Json::Str(user),
{
    let all = payload_members(llm, system, user, None);
    let params = json::entries_of(llm.model_params@);
    let first = all.len() - params.len();
    reveal_strlit("messages");
    reveal_strlit("max_tokens");
    reveal_strlit("temperature");
    reveal_strlit("thinking");
    assert("messages"@.len() == 8 && "max_tokens"@.len() == 10 && "temperature"@.len() == 11);
    assert("messages"@[0] == 'm' && "thinking"@[0] == 't');
    assert forall|k: int| 1 < k < all.len() implies (#[trigger] all[k]).0 != all[1].0 by {
        if k >= first {
            assert(all[k] == params[k - first]);
            assert(llm.model_params@[k - first].0@ != "messages"@);
        }
    }
    json::lemma_member(all, 1);
    let entries = seq![("role"@, Json::Str("user"@)), ("content"@, Json::Str(user))];
    json::lemma_member(entries, 1);
}

/// The base URL never ends with a slash, however many it is set with, and is
/// the local one where none is set.
pub proof fn law_base_urls_end_without_slash(env: EnvSettings, given: Seq<char>)
    ensures
        llm_url_of(env).len() == 0 || llm_url_of(env).last() != '/',
        env.llm_url is None ==> llm_url_of(env) == "http://localhost:8080"@,
        (env.llm_url matches Some(u) && u@ == given && given.len() > 0 && given.last() != '/')
            ==> llm_url_of(env) == given,
        (env.llm_url matches Some(u) && u@ == given + seq!['/']) ==> llm_url_of(env)
            == text::without_trailing(given, '/'),
{
    reveal_strlit("http://localhost:8080");
    text::law_trailing_characters_go(or_default(env.llm_url, "http://localhost:8080"@), '/');
    text::law_trailing_characters_go(given, '/');
}

/// A call is tried as often as the setting says, or else three times.
pub proof fn law_attempts_follow_the_setting(value: Option<String>, n: nat)
    ensures
        value is None ==> attempts_of(value) == 3,
        (value matches Some(v) && v@ == text::dec(n) && n <= u32::MAX) ==> attempts_of(value) == n,
        (value matches Some(v) && v@.len() == 0) ==> attempts_of(value) == 3,
        (value matches Some(v) && v@.len() > 0 && v@[0] != '+' && !('0' <= v@[0] <= '9'))
            ==> attempts_of(value) == 3,
{
    text::law_written_numbers_read_back(n, u32::MAX as nat);
    if let Some(v) = value {
        text::law_numbers_are_digits(v@, u32::MAX as nat);
    }
}

/// Of the headers that are set as an object those count that are strings.
pub proof fn law_string_headers_count(raw: Seq<char>, name: Seq<char>)
    ensures
        json::parsed_json(raw) is Err ==> headers_in(raw) == Map::<Seq<char>, Seq<char>>::empty(),
        json::parsed_json(raw) matches Ok(Json::Obj(m)) ==> {
            &&& headers_in(raw).contains_key(name) <==> m.contains_key(name) && m[name] is Str
            &&& m.contains_key(name) && m[name] is Str ==> Json::Str(headers_in(raw)[name]) == m[name]
        },
{
}

/// Where a chat request goes: to the deployment and the version of the API for
/// Azure, else to the usual path behind the URL.
pub proof fn law_chat_urls_follow_the_provider(llm: LlmConfig)
    ensures
        llm.provider != Provider::Azure ==> chat_url_of(llm) == llm.url@ + "/v1/chat/completions"@,
        llm.provider == Provider::Azure && (llm.url@.len() == 0 || llm.url@.last() != '/')
            && llm.deployment is Some && llm.api_version is Some ==> chat_url_of(llm) == llm.url@
            + "/openai/deployments/"@ + llm.deployment->0@ + "/chat/completions?api-version="@
            + llm.api_version->0@,
        llm.provider == Provider::Azure && (llm.url@.len() == 0 || llm.url@.last() != '/')
            && llm.deployment is None && llm.api_version is None ==> chat_url_of(llm) == llm.url@
            + "/openai/deployments/"@ + llm.model@ + "/chat/completions?api-version="@
            + "2024-10-21"@,
{
    text::law_trailing_characters_go(llm.url@, '/');
}

/// A credential is sent once, as a bearer token unless it is an API key for
/// which a header is named or which goes to Azure; without a credential none
/// is sent.
pub proof fn law_credentials_are_sent_once(llm: LlmConfig, key: Seq<char>)
    ensures
        auth_pairs(llm, None).len() == 0,
        auth_pairs(llm, Some(key)).len() == 1,
        llm.auth.mode != AuthMode::ApiKey ==> auth_pairs(llm, Some(key))[0].0 == "Authorization"@
            && auth_pairs(llm, Some(key))[0].1 == "Bearer "@ + key,
        llm.auth.api_key_header is None && llm.provider != Provider::Azure ==> auth_pairs(
            llm,
            Some(key),
        )[0] == ("Authorization"@, "Bearer "@ + key),
        llm.auth.mode == AuthMode::ApiKey && llm.auth.api_key_header is Some ==> auth_pairs(
            llm,
            Some(key),
        )[0].1 == key && auth_pairs(llm, Some(key))[0].0 == llm.auth.api_key_header->0@,
        llm.auth.mode == AuthMode::ApiKey && llm.auth.api_key_header is None && llm.provider
            == Provider::Azure ==> auth_pairs(llm, Some(key))[0] == ("api-key"@, key),
{
}

/// A failed call is repeated when the endpoint could not be reached, was busy or
/// broken, or answered without an answer; it is final when the credential
/// could not be had or the endpoint refused.
pub proof fn law_only_passing_failures_are_retried(e: LlmCallError)
    ensures
        e is Transport || e is MissingContent ==> e.transient(),
        e is Auth ==> !e.transient(),
        e matches LlmCallError::Http { status, .. } ==> (e.transient() <==> status == 408 || status
            == 429 || 500 <= status <= 599),
        e matches LlmCallError::EmptyBody { status } ==> (e.transient() <==> status == 200
            || status == 408 || status == 429 || 500 <= status <= 599),
        e matches LlmCallError::InvalidJson { status, .. } ==> (e.transient() <==> status == 200
            || status == 408 || status == 429 || 500 <= status <= 599),
{
}

/// A reply is refused when its status is no success, or when it succeeded with
/// nothing in it.
pub proof fn law_refusals_are_told_by_the_status(status: u16, body: Seq<char>)
    ensures
        status < 200 || status >= 300 ==> refused(status, body),
        200 <= status < 300 && body.len() > 0 ==> !refused(status, body),
        status == 200 && body.len() == 0 ==> refused(status, body),
        200 < status < 300 ==> !refused(status, body),
{
}

/// The answer of a reply is the text of its first choice.
pub proof fn law_answers_are_the_first_choice(
    reply: Map<Seq<char>, Json>,
    choices: Seq<Json>,
    choice: Map<Seq<char>, Json>,
    message: Map<Seq<char>, Json>,
    content: Seq<char>,
)
    requires
        reply.contains_key("choices"@),
        reply["choices"@] == Json::Arr(choices),
        choices.len() > 0,
        choices[0] == Json::Obj(choice),
        choice.contains_key("message"@),
        choice["message"@] == Json::Obj(message),
    ensures
        message.contains_key("content"@) && message["content"@] == Json::Str(content) ==> answer_in(
            Json::Obj(reply),
        ) == Some(content),
        !message.contains_key("content"@) ==> answer_in(Json::Obj(reply)) is None,
        answer_in(Json::Arr(choices)) is None,
{
}

/// The message of a failed call says what went wrong.
#[verifier::rlimit(60)]
pub proof fn law_failures_say_what_went_wrong(e: LlmCallError)
    requires
        e.quotable(),
    ensures
        e matches LlmCallError::Transport { message } ==> text::has_text(e.text(), message@),
        e matches LlmCallError::Auth { message } ==> text::has_text(e.text(), message@),
        e matches LlmCallError::Http { status, body } ==> text::has_text(
            e.text(),
            text::dec(status as nat),
        ) && text::has_text(e.text(), text::truncated(body@, 300)),
        e matches LlmCallError::EmptyBody { status } ==> text::has_text(
            e.text(),
            text::dec(status as nat),
        ),
        e matches LlmCallError::InvalidJson { detail, body, .. } ==> text::has_text(
            e.text(),
            detail@,
        ) && text::has_text(e.text(), text::truncated(body@, 300)),
        e matches LlmCallError::MissingContent { json } ==> text::has_text(
            e.text(),
            text::truncated(json@, 300),
        ),
{
    let none = Seq::<char>::empty();
    match e {
        LlmCallError::Transport { message } => {
            text::lemma_middle("LLM HTTP request failed: "@, message@, none);
            assert("LLM HTTP request failed: "@ + message@ + none =~= e.text());
        },
        LlmCallError::Auth { message } => {
            text::lemma_middle("LLM authentication failed: "@, message@, none);
            assert("LLM authentication failed: "@ + message@ + none =~= e.text());
        },
        LlmCallError::Http { status, body } => {
            let head = "LLM endpoint returned HTTP "@;
            let code = text::dec(status as nat);
            let cut = text::truncated(body@, 300);
            text::lemma_middle(head, code, ": "@ + cut);
            assert(head + code + (": "@ + cut) =~= e.text());
            text::lemma_middle(head + code + ": "@, cut, none);
            assert(head + code + ": "@ + cut + none =~= e.text());
        },
        LlmCallError::EmptyBody { status } => {
            text::lemma_middle(
                "LLM endpoint returned HTTP "@,
                text::dec(status as nat),
                " with an empty response (gateway warm-up?)"@,
            );
        },
        LlmCallError::InvalidJson { status, detail, body } => {
            let head = "LLM endpoint returned HTTP "@ + text::dec(status as nat)
                + " with non-JSON body ("@;
            let cut = text::truncated(body@, 300);
            text::lemma_middle(head, detail@, "): "@ + cut);
            assert(head + detail@ + ("): "@ + cut) =~= e.text());
            text::lemma_middle(head + detail@ + "): "@, cut, none);
            assert(head + detail@ + "): "@ + cut + none =~= e.text());
        },
        LlmCallError::MissingContent { json } => {
            let head = "LLM response missing choices[0].message.content: "@;
            let cut = text::truncated(json@, 300);
            text::lemma_middle(head, cut, none);
            assert(head + cut + none =~= e.text());
        },
    }
}

/// Giving up says how often the call was tried, where, and why it failed last.
pub proof fn law_giving_up_says_why(attempts: nat, url: Seq<char>, last: Seq<char>)
    ensures
        text::has_text(gave_up_text(attempts, url, last), text::dec(attempts)),
        text::has_text(gave_up_text(attempts, url, last), url),
        text::has_text(gave_up_text(attempts, url, last), last),
{
    let all = gave_up_text(attempts, url, last);
    let a = "LLM call failed after "@;
    let n = text::dec(attempts);
    let b = " attempt(s) (endpoint "@;
    text::lemma_middle(a, n, b + url + "): "@ + last);
    assert(a + n + (b + url + "): "@ + last) =~= all);
    text::lemma_middle(a + n + b, url, "): "@ + last);
    assert(a + n + b + url + ("): "@ + last) =~= all);
    text::lemma_middle(a + n + b + url + "): "@, last, Seq::empty());
    assert(a + n + b + url + "): "@ + last + Seq::<char>::empty() =~= all);
}

/// A chat request holds the model, both prompts in their roles and the limit
/// of its answer, unless a model parameter takes their place. The picture goes
/// with the user's prompt, and thinking is only spoken of where it is set.
#[verifier::rlimit(60)]
pub proof fn law_chat_requests_hold_the_question(
    llm: LlmConfig,
    system: Seq<char>,
    user: Seq<char>,
    image: Option<Seq<char>>,
)
    requires
        llm.model_params@.len() == 0,
    ensures
        ({
            let body = json::object(payload_members(llm, system, user, image));
            &&& body.member("model"@) == Json::Str(llm.model@)
            &&& body.member("max_tokens"@) == Json::UInt(4096)
            &&& body.member("temperature"@) == json::json_of(llm.temperature)
            &&& body.member("messages"@) == messages_of(system, user, image)
            &&& llm.thinking == Some(true) ==> body.member("thinking"@).member("type"@)
                == Json::Str("enabled"@)
            &&& llm.thinking == Some(false) ==> body.member("thinking"@).member("type"@)
                == Json::Str("disabled"@)
            &&& llm.thinking is None ==> body.member("thinking"@) is Null
        }),
{
    let all = payload_members(llm, system, user, image);
    assert(json::entries_of(llm.model_params@) =~= Seq::<(Seq<char>, Json)>::empty());
    reveal_strlit("model");
    reveal_strlit("messages");
    reveal_strlit("max_tokens");
    reveal_strlit("temperature");
    reveal_strlit("thinking");
    assert("model"@.len() == 5 && "messages"@.len() == 8 && "max_tokens"@.len() == 10
        && "temperature"@.len() == 11 && "thinking"@.len() == 8);
    assert("messages"@[0] == 'm' && "thinking"@[0] == 't');
    json::lemma_member(all, 0);
    json::lemma_member(all, 1);
    json::lemma_member(all, 2);
    json::lemma_member(all, 3);
    match llm.thinking {
        Some(on) => {
            json::lemma_member(all, 4);
            let kind = seq![
                (
                    "type"@,
                    Json::Str(
                        if on {
                            "enabled"@
                        } else {
                            "disabled"@
                        },
                    ),
                ),
            ];
            json::lemma_member(kind, 0);
        },
        None => {
            json::law_members_are_the_entries(all, "thinking"@);
        },
    }
}

/// The messages of a request: what the system says, then what the user asks,
/// and the picture behind the text where there is one.
#[verifier::rlimit(60)]
pub proof fn law_messages_keep_their_roles(
    system: Seq<char>,
    user: Seq<char>,
    image: Option<Seq<char>>,
)
    ensures
        ({
            let list = messages_of(system, user, image);
            let asked = list.element(1).member("content"@);
            &&& list.elements() matches Some(a) && a.len() == 2
            &&& list.element(0).member("role"@) == Json::Str("system"@)
            &&& list.element(0).member("content"@) == Json::Str(system)
            &&& list.element(1).member("role"@) == Json::Str("user"@)
            &&& image is None ==> asked == Json::Str(user)
            &&& image is Some ==> asked.element(0).member("text"@) == Json::Str(user)
                && asked.element(0).member("type"@) == Json::Str("text"@) && asked.element(
                1,
            ).member("type"@) == Json::Str("image_url"@) && asked.element(1).member(
                "image_url"@,
            ).member("url"@) == Json::Str(image->0)
        }),
{
    reveal_strlit("role");
    reveal_strlit("content");
    reveal_strlit("type");
    reveal_strlit("text");
    reveal_strlit("image_url");
    reveal_strlit("url");
    assert("role"@.len() == 4 && "content"@.len() == 7 && "image_url"@.len() == 9);
    assert("type"@[1] == 'y' && "text"@[1] == 'e');
    let s = seq![("role"@, Json::Str("system"@)), ("content"@, Json::Str(system))];
    json::lemma_member(s, 0);
    json::lemma_member(s, 1);
    let u = seq![("role"@, Json::Str("user"@)), ("content"@, user_content(user, image))];
    json::lemma_member(u, 0);
    json::lemma_member(u, 1);
    if let Some(url) = image {
        let t = seq![("type"@, Json::Str("text"@)), ("text"@, Json::Str(user))];
        json::lemma_member(t, 0);
        json::lemma_member(t, 1);
        let inner = seq![("url"@, Json::Str(url))];
        json::lemma_member(inner, 0);
        let p = seq![("type"@, Json::Str("image_url"@)), ("image_url"@, json::object(inner))];
        json::lemma_member(p, 0);
        json::lemma_member(p, 1);
    }
}

/// A call that is answered ends with the answer. One that failed is tried again
/// where the failure may pass and attempts are left, after half a second for
/// each that was made; else it is given up.
pub proof fn law_calls_are_tried_until_answered(
    r: ChatNext,
    made: nat,
    allowed: nat,
    url: Seq<char>,
    outcome: Result<LlmResponse, LlmCallError>,
)
    requires
        follows_call(r, made, allowed, url, outcome),
        made <= u32::MAX,
    ensures
        outcome is Ok <==> r is Answer,
        outcome matches Ok(answer) ==> r->Answer_0 == answer,
        r is Retry <==> outcome is Err && outcome->Err_0.transient() && made < allowed,
        r matches ChatNext::Retry(ms) ==> ms == made * 500,
        made >= allowed && outcome is Err ==> r is GiveUp,
        r matches ChatNext::GiveUp(m) ==> text::has_text(m@, url) && text::has_text(
            m@,
            outcome->Err_0.text(),
        ),
{
    if let Err(e) = outcome {
        law_giving_up_says_why(made, url, e.text());
    }
}

/// A reply gives an answer if and only if it succeeded and holds one; the
/// answer is the one that it holds, with its usage. Else it says what is
/// wrong with it: the status, that it is empty, that it is no JSON, or that
/// it holds no answer.
pub proof fn law_replies_give_their_answer(
    r: Result<LlmResponse, LlmCallError>,
    status: u16,
    body: Seq<char>,
)
    requires
        reads_reply(r, status, body),
    ensures
        r is Ok <==> 200 <= status < 300 && body.len() + (status - 200) > 0 && (json::parsed_json(
            body,
        ) matches Ok(j) && answer_in(j) is Some),
        r matches Ok(answer) ==> (json::parsed_json(body) matches Ok(j) && answer_in(j) == Some(
            answer.content@,
        ) && answer.usage == costs::usage_in(j)),
        status < 200 || status >= 300 ==> (r matches Err(LlmCallError::Http { status: s, body: b })
            && s == status && b@ == body),
        status == 200 && body.len() == 0 ==> (r matches Err(LlmCallError::EmptyBody { .. })),
        status == 200 && body.len() > 0 && json::parsed_json(body) is Err ==> (r matches Err(
            LlmCallError::InvalidJson { .. },
        )),
        status == 200 && body.len() > 0 && (json::parsed_json(body) matches Ok(j) && answer_in(
            j,
        ) is None) ==> (r matches Err(LlmCallError::MissingContent { .. })),
{
}

/// The settings of an LLM that says nothing else: a minute for a call, no
/// thinking, no parameters, and the plain protocol without extra credentials.
pub proof fn law_plain_settings_are_plain(c: LlmConfig)
    requires
        c.is_plain(),
    ensures
        c.timeout_secs == 60,
        c.thinking is None,
        c.model_params@.len() == 0 && c.header_commands@.len() == 0,
        c.provider == Provider::Openai && c.deployment is None && c.api_version is None,
        c.auth.mode == AuthMode::ApiKey && c.auth.token_command is None && c.auth.client_secret
            is None && c.auth.api_key_header is None,
        c.aws.access_key_id is None && c.aws.secret_access_key is None && c.aws.region is None,
        chat_url_of(c) == c.url@ + "/v1/chat/completions"@,
{
}

/// A reply that cannot be used is told with what it said and how it came.
pub proof fn law_unusable_replies_are_quoted(
    r: Result<LlmResponse, LlmCallError>,
    status: u16,
    body: Seq<char>,
)
    requires
        reads_reply(r, status, body),
    ensures
        r matches Err(LlmCallError::InvalidJson { status: s, body: b, detail }) ==> s == status
            && b@ == body && json::parsed_json(body) == Err::<Json, Seq<char>>(detail@),
        r matches Err(LlmCallError::EmptyBody { status: s }) ==> s == 200,
        r matches Err(LlmCallError::MissingContent { json: t }) ==> (json::parsed_json(
            body,
        ) matches Ok(j) && t@ == json::json_text(j)),
        !(r matches Err(LlmCallError::Transport { .. })) && !(r matches Err(
            LlmCallError::Auth { .. },
        )),
{
}

} // verus!
