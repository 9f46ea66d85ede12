//! AWS Bedrock provider — `SigV4`-signed Converse API calls.
//!
//! Credentials are explicit access keys from the endpoint's
//! `[config.endpoints.<name>.aws]` table or what the standard AWS credential
//! chain yields, with optional `profile` / `region` overrides. Requests are
//! signed with `SigV4`, so retries, budgets, and cost tracking behave exactly
//! like every other provider.
//!
//! The request/response mapping follows the Bedrock Converse API:
//! - system prompt → top-level `system` block
//! - user message → `content` blocks (`text`, plus `image` for vision)
//! - `temperature` / `maxTokens` → `inferenceConfig`
//! - usage → `inputTokens` / `outputTokens`
use aws_credential_types::Credentials;
use aws_sigv4::http_request::{sign, SignableBody, SignableRequest, SigningSettings};
use aws_sigv4::sign::v4;
use std::time::{Duration, UNIX_EPOCH};
use vstd::prelude::*;
use vstd::string::StringExecFns;
use crate::auth;
use crate::base64_text;
use crate::costs::{LlmResponse, LlmUsage};
use crate::json;
use crate::json::Json;
use crate::llm;
use crate::llm::{LlmCallError, LlmConfig};
use crate::named;
use crate::scenario::{AwsConfig, Named};
use crate::text;

verus! {

/// AWS service name used for `SigV4` signing.
pub const BEDROCK_SERVICE: &'static str = "bedrock";

/// Resolved credentials plus the region they will be used with.
#[derive(Debug, Clone)]
pub struct BedrockCredentials {
    /// Access key.
    pub access_key_id: String,
    /// Secret key.
    pub secret_access_key: String,
    /// Session token.
    pub session_token: Option<String>,
    /// Region for the Bedrock endpoint and signature.
    pub region: String,
}

impl BedrockCredentials {
    /// A copy of the credentials.
    pub fn copy(&self) -> (r: Self)
        ensures
            r == *self,
    {
        BedrockCredentials {
            access_key_id: self.access_key_id.clone(),
            secret_access_key: self.secret_access_key.clone(),
            session_token: named::copy_option(&self.session_token),
            region: self.region.clone(),
        }
    }
}

/// A text that tells an option and its value apart from every other.
pub open spec fn tagged(value: Option<String>) -> Seq<char> {
    match value {
        Some(v) => "+"@ + v@,
        None => "-"@,
    }
}

/// A text that says whether there is a value, and not which.
pub open spec fn presence(value: Option<String>) -> Seq<char> {
    match value {
        Some(_) => "+"@,
        None => "-"@,
    }
}

/// What the fingerprint of a credential configuration is made of.
pub open spec fn fingerprint_parts(aws: AwsConfig) -> Seq<Seq<char>> {
    seq![
        tagged(aws.profile),
        tagged(aws.region),
        presence(aws.access_key_id),
        presence(aws.secret_access_key),
        presence(aws.session_token),
    ]
}

/// A text that tells an option and its value apart from every other.
fn tag(value: &Option<String>) -> (r: String)
    ensures
        r@ == tagged(*value),
{
    match value {
        Some(v) => {
            let mut s = "+".to_owned();
            s.append(v.as_str());
            s
        },
        None => "-".to_owned(),
    }
}

/// A text that says whether there is a value.
fn presence_of(value: &Option<String>) -> (r: String)
    ensures
        r@ == presence(*value),
{
    match value {
        Some(_) => "+".to_owned(),
        None => "-".to_owned(),
    }
}

/// Stable fingerprint of the credential configuration (secrets are not part
/// of the key beyond their presence).
pub fn credential_fingerprint(aws: &AwsConfig) -> (r: u64)
    ensures
        r == auth::key_of(fingerprint_parts(*aws)),
{
    let parts = vec![
        tag(&aws.profile),
        tag(&aws.region),
        presence_of(&aws.access_key_id),
        presence_of(&aws.secret_access_key),
        presence_of(&aws.session_token),
    ];
    assert(text::views(parts@) =~= fingerprint_parts(*aws));
    auth::cache_key(&parts)
}

/// What has to be done to get credentials.
pub enum CredentialStep {
    /// The credentials are known.
    Ready(BedrockCredentials),
    /// Load the AWS chain with these overrides, then [`chain_loaded`].
    LoadChain {
        /// Named profile.
        profile: Option<String>,
        /// Region.
        region: Option<String>,
    },
}

/// The explicit keys lack a region.
pub open spec fn region_missing() -> Seq<char> {
    "provider = \"bedrock\" with explicit access keys requires the endpoint's [config.endpoints.<name>.aws] region to be set"@
}

/// What a configuration asks for, beside what is cached under a fingerprint:
/// explicit access keys win over the chain.
pub open spec fn credential_step(aws: AwsConfig, cached: Option<(u64, BedrockCredentials)>) -> Result<
    CredentialStep,
    Seq<char>,
> {
    if cached is Some && (cached->0).0 == auth::key_of(fingerprint_parts(aws)) {
        Ok(CredentialStep::Ready((cached->0).1))
    } else if aws.access_key_id is Some && aws.secret_access_key is Some {
        match aws.region {
            Some(region) => Ok(
                CredentialStep::Ready(
                    BedrockCredentials {
                        access_key_id: aws.access_key_id->0,
                        secret_access_key: aws.secret_access_key->0,
                        session_token: aws.session_token,
                        region,
                    },
                ),
            ),
            None => Err(region_missing()),
        }
    } else {
        Ok(CredentialStep::LoadChain { profile: aws.profile, region: aws.region })
    }
}

/// Resolves credentials for a Bedrock endpoint as far as the configuration
/// goes: explicit access keys win, otherwise the standard AWS chain has to be
/// loaded with the optional `profile`/`region` overrides. `cached` is what was
/// resolved last, under its fingerprint.
///
/// # Errors
///
/// Returns a description when explicit keys come without a region.
pub fn resolve_credentials(
    aws: &AwsConfig,
    cached: &Option<(u64, BedrockCredentials)>,
) -> (r: Result<CredentialStep, String>)
    ensures
        match r {
            Ok(step) => credential_step(*aws, *cached) == Ok::<CredentialStep, Seq<char>>(step),
            Err(e) => credential_step(*aws, *cached) == Err::<CredentialStep, Seq<char>>(e@),
        },
{
    let fingerprint: u64 = credential_fingerprint(aws);
    if let Some(slot) = cached {
        if slot.0 == fingerprint {
            return Ok(CredentialStep::Ready(slot.1.copy()));
        }
    }
    if let (Some(access), Some(secret)) = (&aws.access_key_id, &aws.secret_access_key) {
        return match &aws.region {
            Some(region) => Ok(
                CredentialStep::Ready(
                    BedrockCredentials {
                        access_key_id: access.clone(),
                        secret_access_key: secret.clone(),
                        session_token: named::copy_option(&aws.session_token),
                        region: region.clone(),
                    },
                ),
            ),
            None => Err(
                "provider = \"bedrock\" with explicit access keys requires the endpoint's [config.endpoints.<name>.aws] region to be set".to_owned(),
            ),
        };
    }
    Ok(
        CredentialStep::LoadChain {
            profile: named::copy_option(&aws.profile),
            region: named::copy_option(&aws.region),
        },
    )
}

/// Access keys as the AWS chain yields them.
pub struct AwsKeys {
    /// Access key.
    pub access_key_id: String,
    /// Secret key.
    pub secret_access_key: String,
    /// Session token.
    pub session_token: Option<String>,
}

/// What the loaded chain means. The region of the chain wins over that of the
/// configuration.
pub open spec fn chain_meaning(
    aws: AwsConfig,
    keys: Option<Result<AwsKeys, String>>,
    chain_region: Option<String>,
) -> Result<BedrockCredentials, Seq<char>> {
    match keys {
        None => Err(
            "no AWS credentials provider available — set AWS_ACCESS_KEY_ID + AWS_SECRET_ACCESS_KEY (or AWS_PROFILE), or the endpoint's [config.endpoints.<name>.aws] access_key_id + secret_access_key"@,
        ),
        Some(Err(e)) => Err("AWS credential chain failed: "@ + e@),
        Some(Ok(k)) => if chain_region is None && aws.region is None {
            Err(
                "no AWS region configured — set AWS_REGION, the profile's region, or the endpoint's [config.endpoints.<name>.aws] region"@,
            )
        } else {
            Ok(
                BedrockCredentials {
                    access_key_id: k.access_key_id,
                    secret_access_key: k.secret_access_key,
                    session_token: k.session_token,
                    region: if chain_region is Some {
                        chain_region->0
                    } else {
                        aws.region->0
                    },
                },
            )
        },
    }
}

/// Takes what the AWS chain yielded: `keys` is `None` where it has no
/// provider, and an error where the provider failed.
///
/// # Errors
///
/// Returns a description when no credentials or region can be resolved.
pub fn chain_loaded(
    aws: &AwsConfig,
    keys: Option<Result<AwsKeys, String>>,
    chain_region: Option<String>,
) -> (r: Result<BedrockCredentials, String>)
    ensures
        match r {
            Ok(c) => chain_meaning(*aws, keys, chain_region) == Ok::<BedrockCredentials, Seq<char>>(
                c,
            ),
            Err(e) => chain_meaning(*aws, keys, chain_region) == Err::<
                BedrockCredentials,
                Seq<char>,
            >(e@),
        },
{
    let found = match keys {
        None => {
            return Err(
                "no AWS credentials provider available — set AWS_ACCESS_KEY_ID + AWS_SECRET_ACCESS_KEY (or AWS_PROFILE), or the endpoint's [config.endpoints.<name>.aws] access_key_id + secret_access_key".to_owned(),
            );
        },
        Some(Err(e)) => {
            let mut s = "AWS credential chain failed: ".to_owned();
            s.append(e.as_str());
            return Err(s);
        },
        Some(Ok(k)) => k,
    };
    let region = match chain_region {
        Some(r) => r,
        None => match &aws.region {
            Some(r) => r.clone(),
            None => {
                return Err(
                    "no AWS region configured — set AWS_REGION, the profile's region, or the endpoint's [config.endpoints.<name>.aws] region".to_owned(),
                );
            },
        },
    };
    Ok(
        BedrockCredentials {
            access_key_id: found.access_key_id,
            secret_access_key: found.secret_access_key,
            session_token: found.session_token,
            region,
        },
    )
}

/// What an image data URL holds: the text before the `;` and the base64 text
/// behind `base64,`.
pub open spec fn image_parts(url: Seq<char>) -> Option<(Seq<char>, Seq<char>)> {
    let prefix = "data:image/"@;
    let marker = "base64,"@;
    if !text::occurs_at(url, prefix, 0) {
        None
    } else {
        let rest = url.skip(prefix.len() as int);
        let i = text::index_of(rest, ';');
        if i >= rest.len() || !text::occurs_at(rest.skip(i + 1), marker, 0) {
            None
        } else {
            Some((rest.take(i), rest.skip(i + 1).skip(marker.len() as int)))
        }
    }
}

/// The Bedrock image format and base64 payload of an image data URL.
pub open spec fn image_block(url: Seq<char>) -> Option<(Seq<char>, Seq<char>)> {
    match image_parts(url) {
        None => None,
        Some((format, data)) => match base64_text::decoded(data) {
            Err(_) => None,
            Ok(bytes) => Some(
                (
                    if text::lower_ascii(format) == "png"@ {
                        "png"@
                    } else {
                        "jpeg"@
                    },
                    base64_text::encoded(bytes),
                ),
            ),
        },
    }
}

/// The text behind a prefix.
fn strip(s: &str, prefix: &str) -> (r: Option<String>)
    ensures
        match r {
            Some(t) => text::occurs_at(s@, prefix@, 0) && t@ == s@.skip(prefix@.len() as int),
            None => !text::occurs_at(s@, prefix@, 0),
        },
{
    if !text::starts_with_text(s, prefix) {
        return None;
    }
    let chars = text::chars_of(s);
    let skip: usize = text::chars_of(prefix).len();
    let rest = text::text_between(&chars, skip, chars.len());
    assert(rest@ =~= s@.skip(prefix@.len() as int));
    Some(rest)
}

/// The parts of an image data URL.
fn parts_of_data_url(url: &str) -> (r: Option<(String, String)>)
    ensures
        match r {
            Some((format, data)) => image_parts(url@) == Some((format@, data@)),
            None => image_parts(url@) is None,
        },
{
    let rest = match strip(url, "data:image/") {
        Some(r) => r,
        None => {
            return None;
        },
    };
    let chars = text::chars_of(rest.as_str());
    let i: usize = text::find_char(&chars, ';');
    if i >= chars.len() {
        return None;
    }
    let format = text::text_between(&chars, 0, i);
    assert(format@ =~= rest@.take(i as int));
    let tail = text::text_between(&chars, i + 1, chars.len());
    assert(tail@ =~= rest@.skip(i + 1));
    match strip(tail.as_str(), "base64,") {
        Some(data) => Some((format, data)),
        None => None,
    }
}

/// Splits an `image` data URL into a Bedrock image format plus the base64
/// payload; unrecognized formats degrade to `jpeg`.
pub fn split_data_url(url: &str) -> (r: Option<(&'static str, String)>)
    ensures
        match r {
            Some((format, bytes)) => image_block(url@) == Some((format@, bytes@)),
            None => image_block(url@) is None,
        },
{
    let (format, data) = match parts_of_data_url(url) {
        Some(p) => p,
        None => {
            return None;
        },
    };
    let bytes = match base64_text::decode(data.as_str()) {
        Ok(b) => b,
        Err(_) => {
            return None;
        },
    };
    let payload = base64_text::encode(&bytes);
    if text::same_text(text::ascii_lowercase(format.as_str()).as_str(), "png") {
        Some(("png", payload))
    } else {
        Some(("jpeg", payload))
    }
}

/// The user content blocks; an image data URL that can be read becomes an
/// image block.
pub open spec fn content_blocks(user: Seq<char>, image: Option<Seq<char>>) -> Json {
    let words = json::object(seq![("text"@, Json::Str(user))]);
    match image {
        Some(url) => match image_block(url) {
            Some((format, bytes)) => Json::Arr(
                seq![
                    words,
                    json::object(
                        seq![
                            (
                                "image"@,
                                json::object(
                                    seq![
                                        ("format"@, Json::Str(format)),
                                        (
                                            "source"@,
                                            json::object(seq![("bytes"@, Json::Str(bytes))]),
                                        ),
                                    ],
                                ),
                            ),
                        ],
                    ),
                ],
            ),
            None => Json::Arr(seq![words]),
        },
        None => Json::Arr(seq![words]),
    }
}

/// Builds the user content blocks; image data URLs become Converse `image`
/// blocks with raw base64 bytes.
pub fn build_user_content(user: &str, image_data_url: Option<&str>) -> (r: serde_json::Value)
    ensures
        json::json_of(r) == content_blocks(user@, llm::option_view(image_data_url)),
{
    let words = json::object1("text", json::json_string(user));
    if let Some(url) = image_data_url {
        if let Some((format, bytes)) = split_data_url(url) {
            let source = json::object1("bytes", json::json_string(bytes.as_str()));
            let image = json::object2("format", json::json_string(format), "source", source);
            return json::array2(words, json::object1("image", image));
        }
    }
    json::array1(words)
}

/// The member that enables or disables thinking, if either is asked for.
pub open spec fn thinking_setting(thinking: Option<bool>) -> Seq<(Seq<char>, Json)> {
    match thinking {
        Some(true) => seq![
            (
                "thinking"@,
                json::object(
                    seq![("type"@, Json::Str("enabled"@)), ("budgetTokens"@, Json::UInt(1024))],
                ),
            ),
        ],
        Some(false) => seq![("thinking"@, json::object(seq![("type"@, Json::Str("disabled"@))]))],
        None => Seq::empty(),
    }
}

/// The inference settings of a request.
pub open spec fn inference_of(llm: LlmConfig) -> Json {
    json::object(
        seq![("maxTokens"@, Json::UInt(4096)), ("temperature"@, json::json_of(llm.temperature))]
            + thinking_setting(llm.thinking),
    )
}

/// The `system` member, where there is a system prompt.
pub open spec fn system_member(system: Seq<char>) -> Seq<(Seq<char>, Json)> {
    if system.len() == 0 {
        Seq::empty()
    } else {
        seq![("system"@, Json::Arr(seq![json::object(seq![("text"@, Json::Str(system))])]))]
    }
}

/// The members of a Converse request. Provider-specific parameters come last
/// and so replace members of their name.
pub open spec fn converse_members(
    llm: LlmConfig,
    system: Seq<char>,
    user: Seq<char>,
    image: Option<Seq<char>>,
) -> Seq<(Seq<char>, Json)> {
    seq![
        (
            "messages"@,
            Json::Arr(
                seq![
                    json::object(
                        seq![("role"@, Json::Str("user"@)), ("content"@, content_blocks(user, image))],
                    ),
                ],
            ),
        ),
    ] + system_member(system) + seq![("inferenceConfig"@, inference_of(llm))] + json::entries_of(
        llm.model_params@,
    )
}

/// The inference settings of a request.
fn build_inference(llm: &LlmConfig) -> (r: serde_json::Value)
    ensures
        json::json_of(r) == inference_of(*llm),
{
    let mut entries = vec![
        json::entry("maxTokens", json::json_uint(4096)),
        json::entry("temperature", llm.temperature.clone()),
    ];
    match llm.thinking {
        Some(true) => {
            let setting = json::object2(
                "type",
                json::json_string("enabled"),
                "budgetTokens",
                json::json_uint(1024),
            );
            entries.push(json::entry("thinking", setting));
        },
        Some(false) => {
            let setting = json::object1("type", json::json_string("disabled"));
            entries.push(json::entry("thinking", setting));
        },
        None => {},
    }
    assert(json::entries_of(entries@) =~= seq![
        ("maxTokens"@, Json::UInt(4096)),
        ("temperature"@, json::json_of(llm.temperature)),
    ] + thinking_setting(llm.thinking));
    json::json_object(entries)
}

/// Builds the Converse request body for a chat completion.
pub fn build_payload(llm: &LlmConfig, system: &str, user: &str, image_data_url: Option<&str>) -> (r:
    serde_json::Value)
    ensures
        json::json_of(r) == json::object(
            converse_members(*llm, system@, user@, llm::option_view(image_data_url)),
        ),
{
    let ghost all = converse_members(*llm, system@, user@, llm::option_view(image_data_url));
    let message = json::object2(
        "role",
        json::json_string("user"),
        "content",
        build_user_content(user, image_data_url),
    );
    let mut entries = vec![json::entry("messages", json::array1(message))];
    assert(json::entries_of(entries@) =~= all.take(1));
    if !system.is_empty() {
        let block = json::object1("text", json::json_string(system));
        entries.push(json::entry("system", json::array1(block)));
    }
    assert(json::entries_of(entries@) =~= all.take(1) + system_member(system@));
    entries.push(json::entry("inferenceConfig", build_inference(llm)));
    assert(json::entries_of(entries@) =~= all.take(1) + system_member(system@) + seq![
        ("inferenceConfig"@, inference_of(*llm)),
    ]);
    llm::append_entries(&mut entries, &llm.model_params);
    assert(json::entries_of(entries@) =~= all);
    json::json_object(entries)
}

/// The texts of content parts, one behind the other.
pub open spec fn part_texts(parts: Seq<Json>) -> Seq<char>
    decreases parts.len(),
{
    if parts.len() == 0 {
        Seq::empty()
    } else {
        match parts.last().member("text"@).string() {
            Some(t) => part_texts(parts.drop_last()) + t,
            None => part_texts(parts.drop_last()),
        }
    }
}

/// The answer in a Converse response; empty where it has none.
pub open spec fn converse_text(response: Json) -> Seq<char> {
    match response.member("output"@).member("message"@).member("content"@).elements() {
        Some(parts) => part_texts(parts),
        None => Seq::empty(),
    }
}

/// A counter of a Converse response.
pub open spec fn converse_counter(response: Json, key: Seq<char>) -> u64 {
    match response.member("usage"@).member(key).uint() {
        Some(n) => n,
        None => 0,
    }
}

/// The usage in a Converse response.
pub open spec fn converse_usage(response: Json) -> LlmUsage {
    LlmUsage {
        prompt_tokens: converse_counter(response, "inputTokens"@),
        completion_tokens: converse_counter(response, "outputTokens"@),
        total_tokens: converse_counter(response, "totalTokens"@),
    }
}

/// A counter of a Converse response.
fn read_counter(response: &serde_json::Value, key: &str) -> (r: u64)
    ensures
        r == converse_counter(json::json_of(*response), key@),
{
    match json::uint_of(json::member_of(json::member_of(response, "usage"), key)) {
        Some(n) => n,
        None => 0,
    }
}

/// Extracts content and usage from a Converse response, if it has any
/// content.
pub fn converse_answer(value: &serde_json::Value) -> (r: Option<LlmResponse>)
    ensures
        match r {
            Some(resp) => {
                &&& converse_text(json::json_of(*value)).len() > 0
                &&& resp.content@ == converse_text(json::json_of(*value))
                &&& resp.usage == converse_usage(json::json_of(*value))
            },
            None => converse_text(json::json_of(*value)).len() == 0,
        },
{
    let content = json::member_of(
        json::member_of(json::member_of(value, "output"), "message"),
        "content",
    );
    let mut text = String::new();
    if let Some(parts) = json::elements_of(content) {
        let ghost all = json::jsons_of(parts@);
        let mut i: usize = 0;
        assert(all.take(0) =~= Seq::<Json>::empty());
        while i < parts.len()
            invariant
                all == json::jsons_of(parts@),
                i <= parts@.len(),
                text@ == part_texts(all.take(i as int)),
            decreases parts@.len() - i,
        {
            assert(all.take(i + 1).drop_last() =~= all.take(i as int));
            assert(all.take(i + 1).last() == json::json_of(parts@[i as int]));
            if let Some(t) = json::string_of(json::member_of(&parts[i], "text")) {
                text.append(t);
            }
            i += 1;
        }
        assert(all.take(i as int) =~= all);
    }
    if text.as_str().is_empty() {
        return None;
    }
    Some(
        LlmResponse {
            content: text,
            usage: LlmUsage {
                prompt_tokens: read_counter(value, "inputTokens"),
                completion_tokens: read_counter(value, "outputTokens"),
                total_tokens: read_counter(value, "totalTokens"),
            },
        },
    )
}

/// Extracts content and usage from a Converse response. A response without
/// content is quoted up to its first 300 bytes, which must be where a
/// character ends.
///
/// # Errors
///
/// Returns a description when the response has no usable text content.
pub fn parse_response(value: &serde_json::Value) -> (r: Result<LlmResponse, String>)
    requires
        converse_text(json::json_of(*value)).len() == 0 ==> text::can_cut(
            json::json_text(json::json_of(*value)),
            300,
        ),
    ensures
        match r {
            Ok(resp) => {
                &&& converse_text(json::json_of(*value)).len() > 0
                &&& resp.content@ == converse_text(json::json_of(*value))
                &&& resp.usage == converse_usage(json::json_of(*value))
            },
            Err(e) => {
                &&& converse_text(json::json_of(*value)).len() == 0
                &&& e@ == "Bedrock response missing output.message.content text: "@
                    + text::truncated(json::json_text(json::json_of(*value)), 300)
            },
        },
{
    match converse_answer(value) {
        Some(resp) => Ok(resp),
        None => {
            let mut s = "Bedrock response missing output.message.content text: ".to_owned();
            s.append(text::truncate(json::value_text(value).as_str(), 300).as_str());
            Err(s)
        },
    }
}

/// Like [`parse_response`], for any response: `None` where a response without
/// content cannot be quoted.
pub fn try_parse_response(value: &serde_json::Value) -> (r: Option<Result<LlmResponse, String>>)
    ensures
        r is None <==> (converse_text(json::json_of(*value)).len() == 0 && !text::can_cut(
            json::json_text(json::json_of(*value)),
            300,
        )),
        match r {
            Some(Ok(resp)) => {
                &&& resp.content@ == converse_text(json::json_of(*value))
                &&& resp.content@.len() > 0
                &&& resp.usage == converse_usage(json::json_of(*value))
            },
            Some(Err(e)) => {
                &&& converse_text(json::json_of(*value)).len() == 0
                &&& e@ == "Bedrock response missing output.message.content text: "@
                    + text::truncated(json::json_text(json::json_of(*value)), 300)
            },
            None => true,
        },
{
    match converse_answer(value) {
        Some(resp) => Some(Ok(resp)),
        None => if text::cuttable(json::value_text(value).as_str(), 300) {
            Some(parse_response(value))
        } else {
            None
        },
    }
}

/// A reply has nothing to read: its status says failure, or its body is
/// blank.
pub open spec fn nothing_to_read(status: u16, body: Seq<char>) -> bool {
    !(200 <= status < 300) || text::trimmed(body).len() == 0
}

/// What a reply to a converse request says.
pub open spec fn reads_converse(
    r: Result<LlmResponse, LlmCallError>,
    status: u16,
    body: Seq<char>,
) -> bool {
    match r {
        Ok(resp) => {
            &&& !nothing_to_read(status, body)
            &&& json::parsed_json(body) matches Ok(j) && resp.content@ == converse_text(j)
                && resp.content@.len() > 0 && resp.usage == converse_usage(j)
        },
        Err(LlmCallError::Http { status: s, body: b }) => {
            &&& !(200 <= status < 300)
            &&& s == status
            &&& b@ == body
        },
        Err(LlmCallError::EmptyBody { status: s }) => {
            &&& 200 <= status < 300
            &&& text::trimmed(body).len() == 0
            &&& s == status
        },
        Err(LlmCallError::InvalidJson { status: s, detail, body: b }) => {
            &&& !nothing_to_read(status, body)
            &&& json::parsed_json(body) == Err::<Json, Seq<char>>(detail@)
            &&& s == status
            &&& b@ == body
        },
        Err(LlmCallError::MissingContent { json: t }) => {
            &&& !nothing_to_read(status, body)
            &&& json::parsed_json(body) matches Ok(j) && converse_text(j).len() == 0
            &&& t@ == body
        },
        Err(_) => false,
    }
}

/// Reads the reply to a Converse request.
pub fn read_converse_reply(status: u16, body: String) -> (r: Result<LlmResponse, LlmCallError>)
    ensures
        reads_converse(r, status, body@),
{
    if status < 200 || 300 <= status {
        return Err(LlmCallError::Http { status, body });
    }
    if text::trim_text(body.as_str()).as_str().is_empty() {
        return Err(LlmCallError::EmptyBody { status });
    }
    match json::parse_json(body.as_str()) {
        Ok(value) => match converse_answer(&value) {
            Some(resp) => Ok(resp),
            None => Err(LlmCallError::MissingContent { json: body }),
        },
        Err(detail) => Err(LlmCallError::InvalidJson { status, detail, body }),
    }
}

/// Neither blank nor broken over lines.
pub open spec fn header_text(s: Seq<char>) -> bool {
    text::trimmed(s).len() > 0 && !s.contains('\r') && !s.contains('\n')
}

/// What is wrong with a header, if anything is.
pub open spec fn header_defect(name: Seq<char>, value: Seq<char>) -> Option<Seq<char>> {
    if !header_text(name) {
        Some("invalid header name `"@ + name + "`"@)
    } else if !header_text(value) {
        Some("invalid header value for `"@ + name + "`"@)
    } else {
        None
    }
}

/// Neither blank nor broken over lines.
fn is_header_text(s: &str) -> (r: bool)
    ensures
        r == header_text(s@),
{
    !text::trim_text(s).as_str().is_empty() && !text::contains_char(s, '\r')
        && !text::contains_char(s, '\n')
}

/// Checks the name and value of a header.
///
/// # Errors
///
/// An authentication error when the name or the value is blank or broken over
/// lines.
pub fn validate_header(name: &str, value: &str) -> (r: Result<(), LlmCallError>)
    ensures
        match r {
            Ok(_) => header_defect(name@, value@) is None,
            Err(LlmCallError::Auth { message }) => header_defect(name@, value@) == Some(message@),
            Err(_) => false,
        },
{
    if !is_header_text(name) {
        let mut message = "invalid header name `".to_owned();
        message.append(name);
        message.append("`");
        return Err(LlmCallError::Auth { message });
    }
    if !is_header_text(value) {
        let mut message = "invalid header value for `".to_owned();
        message.append(name);
        message.append("`");
        return Err(LlmCallError::Auth { message });
    }
    Ok(())
}

/// What is wrong with the first broken header of a list, if one is.
pub open spec fn first_defect(headers: Seq<(String, String)>) -> Option<Seq<char>>
    decreases headers.len(),
{
    if headers.len() == 0 {
        None
    } else if first_defect(headers.drop_last()) is Some {
        first_defect(headers.drop_last())
    } else {
        header_defect(headers.last().0@, headers.last().1@)
    }
}

/// The headers that every request carries.
pub open spec fn base_headers() -> Seq<(Seq<char>, Seq<char>)> {
    seq![("content-type"@, "application/json"@), ("accept"@, "application/json"@)]
}

/// The headers of a request before those that commands print.
///
/// # Errors
///
/// An authentication error for the first broken header.
pub fn static_headers(llm: &LlmConfig) -> (r: Result<Named<String>, LlmCallError>)
    ensures
        match r {
            Ok(headers) => first_defect(llm.headers@) is None && llm::header_pairs(headers@)
                == base_headers() + llm::header_pairs(llm.headers@),
            Err(LlmCallError::Auth { message }) => first_defect(llm.headers@) == Some(message@),
            Err(_) => false,
        },
{
    let ghost all = llm.headers@;
    let mut i: usize = 0;
    while i < llm.headers.len()
        invariant
            all == llm.headers@,
            i <= all.len(),
            first_defect(all.take(i as int)) is None,
        decreases all.len() - i,
    {
        assert(all.take(i + 1).drop_last() =~= all.take(i as int));
        assert(all.take(i + 1).last() == all[i as int]);
        if let Err(e) = validate_header(llm.headers[i].0.as_str(), llm.headers[i].1.as_str()) {
            proof {
                lemma_defect_stays(all, i + 1);
            }
            return Err(e);
        }
        i += 1;
    }
    assert(all.take(i as int) =~= all);
    let mut headers: Named<String> = vec![
        ("content-type".to_owned(), "application/json".to_owned()),
        ("accept".to_owned(), "application/json".to_owned()),
    ];
    assert(llm::header_pairs(headers@) =~= base_headers());
    llm::append_headers(&mut headers, &llm.headers);
    Ok(headers)
}

/// A broken header stays the first one however many follow.
proof fn lemma_defect_stays(headers: Seq<(String, String)>, i: int)
    requires
        0 <= i <= headers.len(),
        first_defect(headers.take(i)) is Some,
    ensures
        first_defect(headers) == first_defect(headers.take(i)),
    decreases headers.len() - i,
{
    if i < headers.len() {
        assert(headers.take(i + 1).drop_last() =~= headers.take(i));
        lemma_defect_stays(headers, i + 1);
    } else {
        assert(headers.take(i) =~= headers);
    }
}

/// Where a request goes: the URL of the endpoint, or else the standard one of
/// the region.
pub open spec fn converse_url_of(llm: LlmConfig, region: Seq<char>) -> Seq<char> {
    if text::trimmed(llm.url@).len() == 0 {
        "https://bedrock-runtime."@ + region + ".amazonaws.com/model/"@ + llm.model@ + "/converse"@
    } else {
        text::without_trailing(llm.url@, '/')
    }
}

/// Where a request goes.
pub fn converse_url(llm: &LlmConfig, region: &str) -> (r: String)
    ensures
        r@ == converse_url_of(*llm, region@),
{
    if text::trim_text(llm.url.as_str()).as_str().is_empty() {
        let mut url = "https://bedrock-runtime.".to_owned();
        url.append(region);
        url.append(".amazonaws.com/model/");
        url.append(llm.model.as_str());
        url.append("/converse");
        url
    } else {
        text::trim_trailing(llm.url.as_str(), '/')
    }
}

/// Where signing a request failed.
#[derive(Debug, Clone, Copy, PartialEq, Eq, Structural)]
pub enum SignStage {
    /// The request cannot be signed.
    Request,
    /// The parameters are incomplete.
    Params,
    /// The signature could not be computed.
    Signature,
}

/// The headers that `aws-sigv4` adds to a request, or where it failed and its
/// message.
pub uninterp spec fn sigv4_headers(
    method: Seq<char>,
    url: Seq<char>,
    body: Seq<char>,
    headers: Seq<(Seq<char>, Seq<char>)>,
    credentials: (Seq<char>, Seq<char>, Option<Seq<char>>),
    region: Seq<char>,
    service: Seq<char>,
    now_secs: u64,
) -> Result<Seq<(Seq<char>, Seq<char>)>, (SignStage, Seq<char>)>;

/// The keys of credentials, as views.
pub open spec fn keys_of(creds: BedrockCredentials) -> (Seq<char>, Seq<char>, Option<Seq<char>>) {
    (
        creds.access_key_id@,
        creds.secret_access_key@,
        token_view(creds.session_token),
    )
}

/// A session token, if there is one.
pub open spec fn token_view(token: Option<String>) -> Option<Seq<char>> {
    match token {
        Some(t) => Some(t@),
        None => None,
    }
}

/// The request says which host it goes to: its URL is not a bare path, or it
/// has a `host` header.
pub open spec fn names_host(url: Seq<char>, headers: Seq<(Seq<char>, Seq<char>)>) -> bool {
    ||| !(url.len() > 0 && url[0] == '/') && url != "*"@
    ||| exists|i: int| 0 <= i < headers.len() && text::lower_ascii((#[trigger] headers[i]).0) == "host"@
}

/// Seconds since 1970 up to the end of the year 9999.
pub const LAST_SIGNING_TIME: u64 = 253402300799;

/// The names and values of borrowed headers.
pub open spec fn borrowed_pairs(headers: Seq<(&str, &str)>) -> Seq<(Seq<char>, Seq<char>)> {
    headers.map_values(|h: (&str, &str)| (h.0@, h.1@))
}

/// Borrows headers.
fn borrow_headers<'a>(headers: &'a Named<String>) -> (r: Vec<(&'a str, &'a str)>)
    ensures
        borrowed_pairs(r@) == llm::header_pairs(headers@),
{
    let mut r: Vec<(&'a str, &'a str)> = Vec::new();
    let mut i: usize = 0;
    while i < headers.len()
        invariant
            i == r@.len(),
            i <= headers@.len(),
            borrowed_pairs(r@) == llm::header_pairs(headers@).take(i as int),
        decreases headers@.len() - i,
    {
        let ghost before = borrowed_pairs(r@);
        r.push((headers[i].0.as_str(), headers[i].1.as_str()));
        assert(borrowed_pairs(r@) =~= before.push(llm::header_pairs(headers@)[i as int]));
        i += 1;
        assert(borrowed_pairs(r@) =~= llm::header_pairs(headers@).take(i as int));
    }
    assert(llm::header_pairs(headers@).take(i as int) =~= llm::header_pairs(headers@));
    r
}

/// `aws_sigv4::http_request::sign` with the default settings: the headers
/// that sign a request, at a time given in seconds since 1970. The result
/// depends on the arguments alone. Signing needs a host, a date of four-digit years, and no
/// more headers than an `http::HeaderMap` holds.
#[verifier::external_body]
fn sigv4(
    method: &str,
    url: &str,
    body: &str,
    headers: Vec<(&str, &str)>,
    access: &str,
    secret: &str,
    token: Option<String>,
    region: &str,
    service: &'static str,
    now_secs: u64,
) -> (r: Result<Named<String>, (SignStage, String)>)
    requires
        names_host(url@, borrowed_pairs(headers@)),
        headers@.len() <= 20000,
        now_secs <= LAST_SIGNING_TIME,
    ensures
        ({
            let expected = sigv4_headers(
                method@,
                url@,
                body@,
                borrowed_pairs(headers@),
                (access@, secret@, token_view(token)),
                region@,
                service@,
                now_secs,
            );
            match r {
                Ok(added) => expected == Ok::<
                    Seq<(Seq<char>, Seq<char>)>,
                    (SignStage, Seq<char>),
                >(llm::header_pairs(added@)),
                Err((stage, e)) => expected == Err::<
                    Seq<(Seq<char>, Seq<char>)>,
                    (SignStage, Seq<char>),
                >((stage, e@)),
            }
        }),
{
    Ok(sign(
        SignableRequest::new(method, url, headers.into_iter(), SignableBody::Bytes(body.as_bytes()))
            .map_err(|e| (SignStage::Request, e.to_string()))?,
        &v4::SigningParams::builder()
            .identity(&Credentials::new(access, secret, token, None, service).into())
            .region(region).name(service)
            .time(UNIX_EPOCH + Duration::from_secs(now_secs)).settings(SigningSettings::default())
            .build().map_err(|e| (SignStage::Params, e.to_string()))?.into(),
    ).map_err(|e| (SignStage::Signature, e.to_string()))?
        .output().headers().map(|(n, v)| (n.into(), v.into())).collect())
}

/// What is said of a request that could not be signed.
pub open spec fn signing_message(stage: SignStage, e: Seq<char>) -> Seq<char> {
    match stage {
        SignStage::Request => "building signable Bedrock request: "@ + e,
        SignStage::Params => "building SigV4 signing params: "@ + e,
        SignStage::Signature => "SigV4 signing failed: "@ + e,
    }
}

/// Applies `SigV4` to a Bedrock request and returns the signature headers
/// (`authorization`, `x-amz-date`, …) to attach on top of the regular ones.
///
/// # Errors
///
/// An authentication error when the request cannot be signed.
pub fn sign_request(
    url: &str,
    body: &str,
    headers: &Named<String>,
    creds: &BedrockCredentials,
    now_secs: u64,
) -> (r: Result<Named<String>, LlmCallError>)
    requires
        names_host(url@, llm::header_pairs(headers@)),
        headers@.len() <= 20000,
        now_secs <= LAST_SIGNING_TIME,
    ensures
        ({
            let expected = sigv4_headers(
                "POST"@,
                url@,
                body@,
                llm::header_pairs(headers@),
                keys_of(*creds),
                creds.region@,
                BEDROCK_SERVICE@,
                now_secs,
            );
            match r {
                Ok(added) => expected == Ok::<
                    Seq<(Seq<char>, Seq<char>)>,
                    (SignStage, Seq<char>),
                >(llm::header_pairs(added@)),
                Err(LlmCallError::Auth { message }) => expected matches Err((stage, e))
                    && message@ == signing_message(stage, e),
                Err(_) => false,
            }
        }),
{
    let borrowed = borrow_headers(headers);
    assert(borrowed_pairs(borrowed@).len() == borrowed@.len());
    assert(llm::header_pairs(headers@).len() == headers@.len());
    match sigv4(
        "POST",
        url,
        body,
        borrowed,
        creds.access_key_id.as_str(),
        creds.secret_access_key.as_str(),
        named::copy_option(&creds.session_token),
        creds.region.as_str(),
        BEDROCK_SERVICE,
        now_secs,
    ) {
        Ok(added) => Ok(added),
        Err((stage, e)) => {
            let mut message = match stage {
                SignStage::Request => "building signable Bedrock request: ".to_owned(),
                SignStage::Params => "building SigV4 signing params: ".to_owned(),
                SignStage::Signature => "SigV4 signing failed: ".to_owned(),
            };
            message.append(e.as_str());
            Err(LlmCallError::Auth { message })
        },
    }
}

/// A request to be sent as a POST, with its body as text.
pub struct SignedRequest {
    /// Where it goes.
    pub url: String,
    /// Its headers, in order.
    pub headers: Named<String>,
    /// Its body.
    pub body: String,
}

/// Builds the signed request of one Converse chat completion. `headers` are
/// those of [`static_headers`] and behind them those that commands printed.
///
/// # Errors
///
/// An authentication error when the request cannot be signed.
pub fn converse_request(
    llm: &LlmConfig,
    creds: &BedrockCredentials,
    headers: Named<String>,
    system: &str,
    user: &str,
    image_data_url: Option<&str>,
    now_secs: u64,
) -> (r: Result<SignedRequest, LlmCallError>)
    requires
        names_host(converse_url_of(*llm, creds.region@), llm::header_pairs(headers@)),
        headers@.len() <= 20000,
        now_secs <= LAST_SIGNING_TIME,
    ensures
        ({
            let url = converse_url_of(*llm, creds.region@);
            let body = json::json_text(
                json::object(
                    converse_members(*llm, system@, user@, llm::option_view(image_data_url)),
                ),
            );
            let expected = sigv4_headers(
                "POST"@,
                url,
                body,
                llm::header_pairs(headers@),
                keys_of(*creds),
                creds.region@,
                BEDROCK_SERVICE@,
                now_secs,
            );
            match r {
                Ok(request) => {
                    &&& request.url@ == url
                    &&& request.body@ == body
                    &&& expected matches Ok(added) && llm::header_pairs(request.headers@)
                        == llm::header_pairs(headers@) + added
                },
                Err(LlmCallError::Auth { message }) => expected matches Err((stage, e))
                    && message@ == signing_message(stage, e),
                Err(_) => false,
            }
        }),
{
    let url = converse_url(llm, creds.region.as_str());
    let body = json::value_text(&build_payload(llm, system, user, image_data_url));
    let added = match sign_request(url.as_str(), body.as_str(), &headers, creds, now_secs) {
        Ok(a) => a,
        Err(e) => {
            return Err(e);
        },
    };
    let mut all = headers;
    llm::append_headers(&mut all, &added);
    Ok(SignedRequest { url, headers: all, body })
}

/// An image data URL that holds what the base64 engine wrote for some bytes
/// becomes an image block with those same bytes.
pub proof fn law_data_url_keeps_image(format: Seq<char>, bytes: Seq<u8>)
    requires
        !format.contains(';'),
        base64_text::decoded(base64_text::encoded(bytes)) == Ok::<Seq<u8>, Seq<char>>(bytes),
    ensures
        image_block(
            "data:image/"@ + format + ";base64,"@ + base64_text::encoded(bytes),
        ) matches Some((_, payload)) && payload == base64_text::encoded(bytes),
{
    let data = base64_text::encoded(bytes);
    let prefix = "data:image/"@;
    let url = prefix + format + ";base64,"@ + data;
    reveal_strlit(";base64,");
    reveal_strlit("base64,");
    let rest = url.skip(prefix.len() as int);
    assert(url.subrange(0, prefix.len() as int) =~= prefix);
    assert(rest =~= format + ";base64,"@ + data);
    lemma_index_of(format, ";base64,"@ + data, ';');
    assert(rest =~= format + (";base64,"@ + data));
    let i = format.len() as int;
    assert(rest.take(i) =~= format);
    let tail = rest.skip(i + 1);
    assert(tail =~= "base64,"@ + data);
    assert(tail.subrange(0, "base64,"@.len() as int) =~= "base64,"@);
    assert(tail.skip("base64,"@.len() as int) =~= data);
}

/// The first `c` of a text that starts with it, behind one without any.
proof fn lemma_index_of(a: Seq<char>, b: Seq<char>, c: char)
    requires
        !a.contains(c),
        b.len() > 0,
        b[0] == c,
    ensures
        text::index_of(a + b, c) == a.len(),
    decreases a.len(),
{
    if a.len() == 0 {
        assert((a + b)[0] == c);
    } else {
        assert(a.contains(a[0]));
        assert((a + b)[0] == a[0]);
        assert((a + b).skip(1) =~= a.skip(1) + b);
        assert forall|k: int| 0 <= k < a.skip(1).len() implies a.skip(1)[k] != c by {
            assert(a.contains(a[k + 1]));
        }
        lemma_index_of(a.skip(1), b, c);
    }
}

/// Credentials come from where they are given: those that were loaded for the
/// same settings, else explicit keys, which need a region, else the chain of
/// the machine, asked for the profile and the region that are set.
pub proof fn law_credentials_follow_the_settings(
    aws: AwsConfig,
    cached: Option<(u64, BedrockCredentials)>,
)
    ensures
        cached is None && aws.access_key_id is Some && aws.secret_access_key is Some
            && aws.region is Some ==> (credential_step(aws, cached) matches Ok(
            CredentialStep::Ready(c),
        ) && c.access_key_id == aws.access_key_id->0 && c.secret_access_key
            == aws.secret_access_key->0 && c.session_token == aws.session_token && c.region
            == aws.region->0),
        cached is None && aws.access_key_id is Some && aws.secret_access_key is Some
            && aws.region is None ==> credential_step(aws, cached) is Err,
        cached is None && (aws.access_key_id is None || aws.secret_access_key is None) ==> (
        credential_step(aws, cached) matches Ok(CredentialStep::LoadChain { profile, region })
            && profile == aws.profile && region == aws.region),
        (cached matches Some((key, c)) && key == auth::key_of(fingerprint_parts(aws)))
            ==> credential_step(aws, cached) == Ok::<CredentialStep, Seq<char>>(
            CredentialStep::Ready((cached->0).1),
        ),
        (cached matches Some((key, c)) && key != auth::key_of(fingerprint_parts(aws)))
            ==> credential_step(aws, cached) == credential_step(aws, None),
{
}

/// Settings of another profile or region, or with other keys set, are not
/// taken for the same.
pub proof fn law_fingerprints_tell_settings_apart(a: AwsConfig, b: AwsConfig)
    requires
        fingerprint_parts(a) == fingerprint_parts(b),
    ensures
        a.profile is Some <==> b.profile is Some,
        a.profile is Some ==> a.profile->0@ == b.profile->0@,
        a.region is Some <==> b.region is Some,
        a.region is Some ==> a.region->0@ == b.region->0@,
        a.access_key_id is Some <==> b.access_key_id is Some,
        a.secret_access_key is Some <==> b.secret_access_key is Some,
        a.session_token is Some <==> b.session_token is Some,
{
    reveal_strlit("+");
    reveal_strlit("-");
    let x = fingerprint_parts(a);
    let y = fingerprint_parts(b);
    assert(x[0] == y[0] && x[1] == y[1] && x[2] == y[2] && x[3] == y[3] && x[4] == y[4]);
    lemma_tagged(a.profile, b.profile);
    lemma_tagged(a.region, b.region);
    assert("+"@[0] == '+' && "-"@[0] == '-');
}

/// What is tagged alike is alike.
proof fn lemma_tagged(a: Option<String>, b: Option<String>)
    requires
        tagged(a) == tagged(b),
    ensures
        a is Some <==> b is Some,
        a is Some ==> a->0@ == b->0@,
{
    reveal_strlit("+");
    reveal_strlit("-");
    assert("+"@[0] == '+' && "-"@[0] == '-');
    assert(tagged(a)[0] == tagged(b)[0]);
    if a is Some {
        assert(("+"@ + a->0@)[0] == '+');
    }
    if b is Some {
        assert(("+"@ + b->0@)[0] == '+');
    }
    if a is Some && b is Some {
        assert(tagged(a).skip(1) =~= a->0@);
        assert(tagged(b).skip(1) =~= b->0@);
    }
}

/// The keys of the chain are taken as they are, in the region of the chain or
/// else that of the settings; without keys or a region there are none.
pub proof fn law_chain_credentials_need_keys_and_region(
    aws: AwsConfig,
    keys: Option<Result<AwsKeys, String>>,
    chain_region: Option<String>,
)
    ensures
        chain_meaning(aws, keys, chain_region) is Ok <==> keys is Some && keys->0 is Ok && (
        chain_region is Some || aws.region is Some),
        chain_meaning(aws, keys, chain_region) matches Ok(c) ==> {
            let k = keys->0->Ok_0;
            &&& c.access_key_id == k.access_key_id
            &&& c.secret_access_key == k.secret_access_key
            &&& c.session_token == k.session_token
            &&& chain_region is Some ==> c.region == chain_region->0
            &&& chain_region is None ==> c.region == aws.region->0
        },
{
}

/// A converse request asks the user's question, tells the system prompt where
/// there is one, and limits the answer.
#[verifier::rlimit(60)]
pub proof fn law_converse_requests_hold_the_question(
    llm: LlmConfig,
    system: Seq<char>,
    user: Seq<char>,
)
    requires
        llm.model_params@.len() == 0,
    ensures
        ({
            let body = json::object(converse_members(llm, system, user, None));
            let asked = body.member("messages"@).element(0);
            &&& asked.member("role"@) == Json::Str("user"@)
            &&& asked.member("content"@).element(0).member("text"@) == Json::Str(user)
            &&& system.len() > 0 ==> body.member("system"@).element(0).member("text"@) == Json::Str(
                system,
            )
            &&& system.len() == 0 ==> body.member("system"@) is Null
            &&& body.member("inferenceConfig"@).member("maxTokens"@) == Json::UInt(4096)
            &&& body.member("inferenceConfig"@).member("temperature"@) == json::json_of(
                llm.temperature,
            )
        }),
{
    let all = converse_members(llm, system, user, None);
    assert(json::entries_of(llm.model_params@) =~= Seq::<(Seq<char>, Json)>::empty());
    reveal_strlit("messages");
    reveal_strlit("system");
    reveal_strlit("inferenceConfig");
    assert("messages"@.len() == 8 && "system"@.len() == 6 && "inferenceConfig"@.len() == 15);
    reveal_strlit("role");
    reveal_strlit("content");
    assert("role"@.len() == 4 && "content"@.len() == 7);
    reveal_strlit("maxTokens");
    reveal_strlit("temperature");
    reveal_strlit("thinking");
    assert("maxTokens"@.len() == 9 && "temperature"@.len() == 11 && "thinking"@.len() == 8);
    json::lemma_member(all, 0);
    json::lemma_member(all, all.len() - 1);
    let asked = seq![("role"@, Json::Str("user"@)), ("content"@, content_blocks(user, None))];
    json::lemma_member(asked, 0);
    json::lemma_member(asked, 1);
    json::lemma_member(seq![("text"@, Json::Str(user))], 0);
    if system.len() > 0 {
        json::lemma_member(all, 1);
        json::lemma_member(seq![("text"@, Json::Str(system))], 0);
    } else {
        json::law_members_are_the_entries(all, "system"@);
    }
    let inference = seq![
        ("maxTokens"@, Json::UInt(4096)),
        ("temperature"@, json::json_of(llm.temperature)),
    ] + thinking_setting(llm.thinking);
    json::lemma_member(inference, 0);
    json::lemma_member(inference, 1);
}

/// The answer is the text of all parts, in their order; parts without text
/// add nothing.
pub proof fn law_answer_parts_are_put_together(a: Seq<Json>, b: Seq<Json>, part: Json)
    ensures
        part_texts(Seq::empty()) == Seq::<char>::empty(),
        part_texts(a + b) == part_texts(a) + part_texts(b),
        part.member("text"@) matches Json::Str(t) ==> part_texts(seq![part]) == t,
        !(part.member("text"@) is Str) ==> part_texts(seq![part]).len() == 0,
    decreases b.len(),
{
    assert(seq![part].drop_last() =~= Seq::<Json>::empty());
    assert(seq![part].last() == part);
    if let Json::Str(t) = part.member("text"@) {
        assert(Seq::<char>::empty() + t =~= t);
    }
    if b.len() == 0 {
        assert(a + b =~= a);
        assert(part_texts(a) + Seq::<char>::empty() =~= part_texts(a));
    } else {
        law_answer_parts_are_put_together(a, b.drop_last(), part);
        assert((a + b).drop_last() =~= a + b.drop_last());
        assert((a + b).last() == b.last());
        if let Some(t) = b.last().member("text"@).string() {
            assert(part_texts(a) + (part_texts(b.drop_last()) + t) =~= part_texts(a)
                + part_texts(b.drop_last()) + t);
        }
    }
}

/// Where the answer stands in a reply, and its counters.
pub proof fn law_converse_replies_are_read_at_their_place(
    reply: Map<Seq<char>, Json>,
    output: Map<Seq<char>, Json>,
    message: Map<Seq<char>, Json>,
    parts: Seq<Json>,
    usage: Map<Seq<char>, Json>,
    n: u64,
)
    requires
        reply.contains_key("output"@) && reply["output"@] == Json::Obj(output),
        output.contains_key("message"@) && output["message"@] == Json::Obj(message),
        message.contains_key("content"@) && message["content"@] == Json::Arr(parts),
        reply.contains_key("usage"@) && reply["usage"@] == Json::Obj(usage),
    ensures
        converse_text(Json::Obj(reply)) == part_texts(parts),
        usage.contains_key("inputTokens"@) && usage["inputTokens"@] == Json::UInt(n)
            ==> converse_usage(Json::Obj(reply)).prompt_tokens == n,
        usage.contains_key("outputTokens"@) && usage["outputTokens"@] == Json::UInt(n)
            ==> converse_usage(Json::Obj(reply)).completion_tokens == n,
        usage.contains_key("totalTokens"@) && usage["totalTokens"@] == Json::UInt(n)
            ==> converse_usage(Json::Obj(reply)).total_tokens == n,
        !usage.contains_key("inputTokens"@) ==> converse_usage(Json::Obj(reply)).prompt_tokens == 0,
{
}

/// There is nothing to read where the status is no success or the body is
/// blank.
pub proof fn law_blank_replies_are_not_read(status: u16, body: Seq<char>)
    ensures
        nothing_to_read(status, body) <==> status < 200 || status >= 300 || forall|i: int|
            0 <= i < body.len() ==> text::is_space(#[trigger] body[i]),
{
    lemma_blank(body);
}

/// A text is blank when all of it is space.
proof fn lemma_blank(s: Seq<char>)
    ensures
        text::trimmed(s).len() == 0 <==> forall|i: int|
            0 <= i < s.len() ==> text::is_space(#[trigger] s[i]),
{
    let (i, j) = text::law_trimmed_is_a_part(s);
    if text::trimmed(s).len() > 0 {
        assert(text::trimmed(s)[0] == s[i]);
    }
}

/// A header is sound when neither its name nor its value is blank or holds a
/// line break, and headers are sound when each of them is.
pub proof fn law_headers_are_checked(headers: Seq<(String, String)>)
    ensures
        first_defect(headers) is None <==> forall|i: int|
            0 <= i < headers.len() ==> header_defect(
                (#[trigger] headers[i]).0@,
                headers[i].1@,
            ) is None,
    decreases headers.len(),
{
    if headers.len() > 0 {
        let rest = headers.drop_last();
        law_headers_are_checked(rest);
        assert(headers[headers.len() - 1] == headers.last());
        if first_defect(headers) is None {
            assert forall|i: int| 0 <= i < headers.len() implies header_defect(
                (#[trigger] headers[i]).0@,
                headers[i].1@,
            ) is None by {
                if i < rest.len() {
                    assert(rest[i] == headers[i]);
                }
            }
        } else {
            if first_defect(rest) is Some {
                let i = choose|i: int|
                    0 <= i < rest.len() && header_defect(
                        (#[trigger] rest[i]).0@,
                        rest[i].1@,
                    ) is Some;
                assert(headers[i] == rest[i]);
            }
        }
    }
}

/// What makes a header unsound.
pub proof fn law_header_breaks_are_refused(name: Seq<char>, value: Seq<char>, i: int)
    ensures
        name.len() == 0 || value.len() == 0 ==> header_defect(name, value) is Some,
        0 <= i < name.len() && (name[i] == '\r' || name[i] == '\n') ==> header_defect(name, value)
            is Some,
        0 <= i < value.len() && (value[i] == '\r' || value[i] == '\n') ==> header_defect(
            name,
            value,
        ) is Some,
        name.len() > 0 && !text::is_space(name[0]) && text::lacks(name, '\r') && text::lacks(
            name,
            '\n',
        ) && value.len() > 0 && !text::is_space(value[0]) && text::lacks(value, '\r')
            && text::lacks(value, '\n') ==> header_defect(name, value) is None,
{
    lemma_blank(name);
    lemma_blank(value);
}

/// A converse request goes to the endpoint's own URL, or else to the service
/// of the region under the name of the model.
pub proof fn law_converse_urls_name_region_and_model(llm: LlmConfig, region: Seq<char>)
    ensures
        llm.url@.len() == 0 ==> converse_url_of(llm, region) == "https://bedrock-runtime."@ + region
            + ".amazonaws.com/model/"@ + llm.model@ + "/converse"@,
        llm.url@.len() > 0 && !text::is_space(llm.url@[0]) && llm.url@.last() != '/'
            ==> converse_url_of(llm, region) == llm.url@,
{
    lemma_blank(llm.url@);
    text::law_trailing_characters_go(llm.url@, '/');
}

/// A failed signature says why.
pub proof fn law_signing_failures_say_why(stage: SignStage, e: Seq<char>)
    ensures
        text::has_text(signing_message(stage, e), e),
{
    let head = match stage {
        SignStage::Request => "building signable Bedrock request: "@,
        SignStage::Params => "building SigV4 signing params: "@,
        SignStage::Signature => "SigV4 signing failed: "@,
    };
    text::lemma_middle(head, e, Seq::empty());
    assert(head + e + Seq::<char>::empty() =~= signing_message(stage, e));
}

/// A picture is sent as PNG where its URL says so, in whatever case, and else as
/// JPEG.
pub proof fn law_pictures_keep_their_format(format: Seq<char>, bytes: Seq<u8>)
    requires
        !format.contains(';'),
        base64_text::decoded(base64_text::encoded(bytes)) == Ok::<Seq<u8>, Seq<char>>(bytes),
    ensures
        ({
            let url = "data:image/"@ + format + ";base64,"@ + base64_text::encoded(bytes);
            &&& image_block(url) is Some
            &&& text::lower_ascii(format) == seq!['p', 'n', 'g'] ==> (image_block(url)->0).0
                == "png"@
            &&& text::lower_ascii(format) != seq!['p', 'n', 'g'] ==> (image_block(url)->0).0
                == "jpeg"@
        }),
{
    reveal_strlit("png");
    assert("png"@ =~= seq!['p', 'n', 'g']);
    law_data_url_keeps_image(format, bytes);
    let data = base64_text::encoded(bytes);
    let prefix = "data:image/"@;
    let url = prefix + format + ";base64,"@ + data;
    reveal_strlit(";base64,");
    let rest = url.skip(prefix.len() as int);
    assert(rest =~= format + (";base64,"@ + data));
    lemma_index_of(format, ";base64,"@ + data, ';');
    assert(rest.take(format.len() as int) =~= format);
}

/// A converse reply gives an answer if and only if it succeeded and has text;
/// else it says what is wrong with it.
pub proof fn law_converse_replies_give_their_answer(
    r: Result<LlmResponse, LlmCallError>,
    status: u16,
    body: Seq<char>,
)
    requires
        reads_converse(r, status, body),
    ensures
        r is Ok <==> 200 <= status < 300 && text::trimmed(body).len() > 0 && (json::parsed_json(
            body,
        ) matches Ok(j) && converse_text(j).len() > 0),
        r matches Ok(answer) ==> (json::parsed_json(body) matches Ok(j) && answer.content@
            == converse_text(j) && answer.usage == converse_usage(j)),
        status < 200 || status >= 300 ==> (r matches Err(LlmCallError::Http { status: s, body: b })
            && s == status && b@ == body),
        200 <= status < 300 && text::trimmed(body).len() == 0 ==> (r matches Err(
            LlmCallError::EmptyBody { status: s },
        ) && s == status),
        200 <= status < 300 && text::trimmed(body).len() > 0 && json::parsed_json(body) is Err ==> (
        r matches Err(LlmCallError::InvalidJson { status: s, body: b, .. }) && s == status && b@
            == body),
        200 <= status < 300 && text::trimmed(body).len() > 0 && (json::parsed_json(
            body,
        ) matches Ok(j) && converse_text(j).len() == 0) ==> (r matches Err(
            LlmCallError::MissingContent { json: t },
        ) && t@ == body),
{
}

} // verus!
