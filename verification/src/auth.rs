//! Authentication token resolution for LLM endpoints.
//!
//! Supports Entra ID (OAuth 2.0 client-credentials grant and managed identity
//! via the IMDS endpoint) and arbitrary "token command" programs (e.g.
//! `az account get-access-token …`). Tokens are cached with a TTL
//! (server-issued expiry for Entra, configurable for commands) so a test run
//! does not re-authenticate on every LLM call.
//!
//! The functions here decide what has to be run or sent and read what came
//! back; the caller runs the command or sends the request in between.
use std::collections::hash_map::DefaultHasher;
use std::collections::HashMap;
use std::hash::Hasher;
use vstd::prelude::*;
use vstd::std_specs::hash::DefaultHasherAdditionalSpecFns;
use vstd::string::StringExecFns;
use crate::json;
use crate::json::Json;
use crate::llm;
use crate::llm::LlmCallError;
use crate::redact;
use crate::redact::ObservedRegistry;
use crate::scenario::{AuthConfig, AuthMode, Named};
use crate::text;

verus! {

/// Default scope for Azure Cognitive Services Entra tokens.
pub const DEFAULT_AZURE_COGNITIVE_SCOPE: &'static str = "https://cognitiveservices.azure.com/.default";

/// Default resource for the managed-identity IMDS call.
pub const DEFAULT_AZURE_IMDS_RESOURCE: &'static str = "https://cognitiveservices.azure.com/";

/// Default Entra token endpoint authority.
pub const DEFAULT_TOKEN_URL: &'static str = "https://login.microsoftonline.com";

/// Default IMDS endpoint.
pub const DEFAULT_IMDS_URL: &'static str = "http://169.254.169.254";

/// How long a command-produced token is reused before the command is run
/// again (seconds).
pub const DEFAULT_COMMAND_CACHE_TTL_SECS: u64 = 300;

/// Effective cache TTL for command-produced tokens, in seconds.
pub open spec fn command_ttl(auth: AuthConfig) -> u64 {
    match auth.cache_ttl_secs {
        Some(n) => if n == 0 {
            1
        } else {
            n
        },
        None => DEFAULT_COMMAND_CACHE_TTL_SECS,
    }
}

/// Effective cache TTL for command-produced tokens, in seconds.
pub fn effective_cmd_ttl(auth: &AuthConfig) -> (r: u64)
    ensures
        r == command_ttl(*auth),
{
    match auth.cache_ttl_secs {
        Some(n) => if n == 0 {
            1
        } else {
            n
        },
        None => DEFAULT_COMMAND_CACHE_TTL_SECS,
    }
}

/// What is written to the hasher for a list of texts: the bytes of each, and
/// a byte that no text holds.
pub open spec fn hashed(parts: Seq<Seq<char>>) -> Seq<Seq<u8>>
    decreases parts.len(),
{
    if parts.len() == 0 {
        Seq::empty()
    } else {
        hashed(parts.drop_last()).push(vstd::utf8::encode_utf8(parts.last())).push(seq![255u8])
    }
}

/// The cache key of a list of texts.
pub open spec fn key_of(parts: Seq<Seq<char>>) -> u64 {
    DefaultHasher::spec_finish(hashed(parts))
}

/// Stable fingerprint for the token cache (secrets are hashed, never kept in
/// the key).
pub fn cache_key(parts: &Vec<String>) -> (r: u64)
    ensures
        r == key_of(text::views(parts@)),
{
    let ghost all = text::views(parts@);
    let mut hasher = DefaultHasher::new();
    let mut i: usize = 0;
    assert(all.take(0) =~= Seq::<Seq<char>>::empty());
    while i < parts.len()
        invariant
            all == text::views(parts@),
            i <= parts@.len(),
            hasher@ == hashed(all.take(i as int)),
        decreases parts@.len() - i,
    {
        assert(all.take(i + 1).drop_last() =~= all.take(i as int));
        hasher.write(parts[i].as_str().as_bytes());
        let end: [u8; 1] = [255u8];
        assert(end@ =~= seq![255u8]);
        hasher.write(&end);
        i += 1;
    }
    assert(all.take(i as int) =~= all);
    hasher.finish()
}

/// A cached token together with its expiry.
pub struct CacheEntry {
    /// When the token expires, in milliseconds of the caller's clock.
    pub expires_at: u128,
    /// The bearer token value.
    pub token: String,
}

/// Token cache keyed by an auth-config fingerprint. Keys are hashes so
/// secrets (client secrets, commands) never appear in the key.
pub struct TokenCache {
    entries: HashMap<u64, CacheEntry>,
}

/// What the cache holds: for each key the expiry and the token.
pub type CacheView = Map<u64, (u128, Seq<char>)>;

impl View for TokenCache {
    type V = CacheView;

    closed spec fn view(&self) -> CacheView {
        self.entries@.map_values(|e: CacheEntry| (e.expires_at, e.token@))
    }
}

/// The token under a key at a time, if it has not expired.
pub open spec fn valid_token(cache: CacheView, key: u64, now: u64) -> Option<Seq<char>> {
    if cache.contains_key(key) && cache[key].0 > now {
        Some(cache[key].1)
    } else {
        None
    }
}

/// The cache after a token was obtained. A TTL of 0 means that none was
/// reported.
pub open spec fn with_token(
    cache: CacheView,
    key: u64,
    now: u64,
    ttl: u64,
    fallback_ttl: u64,
    token: Seq<char>,
) -> CacheView {
    let secs = if ttl == 0 {
        fallback_ttl
    } else {
        ttl
    };
    cache.insert(key, ((now + 1000 * secs) as u128, token))
}

impl TokenCache {
    /// An empty cache.
    pub fn new() -> (r: Self)
        ensures
            r@ == Map::<u64, (u128, Seq<char>)>::empty(),
    {
        let r = TokenCache { entries: HashMap::new() };
        assert(r@ =~= Map::<u64, (u128, Seq<char>)>::empty());
        r
    }

    /// The cached token, when still valid.
    pub fn get(&self, key: u64, now: u64) -> (r: Option<String>)
        ensures
            match r {
                Some(t) => valid_token(self@, key, now) == Some(t@),
                None => valid_token(self@, key, now) is None,
            },
    {
        broadcast use vstd::std_specs::hash::group_hash_axioms;

        match self.entries.get(&key) {
            Some(entry) => if entry.expires_at > now as u128 {
                Some(entry.token.clone())
            } else {
                None
            },
            None => None,
        }
    }

    /// Stores a token with its reported TTL in seconds, or with the fallback
    /// one where the TTL is 0.
    pub fn store(&mut self, key: u64, now: u64, ttl: u64, fallback_ttl: u64, token: &str)
        ensures
            final(self)@ == with_token(old(self)@, key, now, ttl, fallback_ttl, token@),
    {
        broadcast use vstd::std_specs::hash::group_hash_axioms;

        let secs: u64 = if ttl == 0 {
            fallback_ttl
        } else {
            ttl
        };
        let expires_at: u128 = now as u128 + 1000 * (secs as u128);
        self.entries.insert(key, CacheEntry { expires_at, token: token.to_owned() });
        assert(self@ =~= with_token(old(self)@, key, now, ttl, fallback_ttl, token@));
    }
}

/// A stored token is handed out until its TTL has passed, and not from then
/// on. Without a reported TTL the fallback one counts.
pub proof fn law_token_kept_until_expiry(
    cache: CacheView,
    key: u64,
    stored: u64,
    ttl: u64,
    fallback_ttl: u64,
    token: Seq<char>,
    now: u64,
)
    ensures
        valid_token(with_token(cache, key, stored, ttl, fallback_ttl, token), key, now) == if now
            < stored + 1000 * (if ttl == 0 {
            fallback_ttl
        } else {
            ttl
        }) {
            Some(token)
        } else {
            None
        },
{
}

/// Storing a token leaves the tokens under other keys as they were.
pub proof fn law_other_tokens_kept(
    cache: CacheView,
    key: u64,
    stored: u64,
    ttl: u64,
    fallback_ttl: u64,
    token: Seq<char>,
    other: u64,
    now: u64,
)
    requires
        other != key,
    ensures
        valid_token(with_token(cache, key, stored, ttl, fallback_ttl, token), other, now)
            == valid_token(cache, other, now),
{
}

/// A token request: a form that is posted, or a query.
pub struct TokenRequest {
    /// Where it goes.
    pub url: String,
    /// Whether the parameters are posted as a form; else they are a query.
    pub post: bool,
    /// Headers.
    pub headers: Named<String>,
    /// Parameters, in order.
    pub params: Named<String>,
    /// HTTP timeout in seconds.
    pub timeout_secs: u64,
    /// Who is asked, for messages.
    pub kind: String,
}

/// How a token is obtained.
pub enum TokenSource {
    /// The static key, if there is one.
    Static(Option<String>),
    /// The first output line of a command.
    Command {
        /// The shell command.
        command: String,
        /// Seconds for which the token is kept.
        ttl: u64,
        /// Cache key.
        key: u64,
    },
    /// The reply of a token endpoint.
    Endpoint {
        /// The request.
        request: TokenRequest,
        /// Cache key.
        key: u64,
    },
}

/// What an incomplete configuration lacks.
pub open spec fn missing_setting(auth: AuthConfig) -> Option<Seq<char>> {
    match auth.mode {
        AuthMode::TokenCommand => if auth.token_command is None {
            Some("auth.mode = \"token-command\" requires auth.token_command"@)
        } else {
            None
        },
        AuthMode::EntraClientCredentials => if auth.tenant_id is None {
            Some("auth.mode = \"entra-client-credentials\" requires auth.tenant_id"@)
        } else if auth.client_id is None {
            Some("auth.mode = \"entra-client-credentials\" requires auth.client_id"@)
        } else if auth.client_secret is None {
            Some("auth.mode = \"entra-client-credentials\" requires auth.client_secret"@)
        } else {
            None
        },
        _ => None,
    }
}

/// The request of a client-credentials grant.
pub open spec fn is_credentials_request(r: TokenRequest, auth: AuthConfig) -> bool {
    let base = llm::or_default(auth.token_url, DEFAULT_TOKEN_URL@);
    &&& r.url@ == text::without_trailing(base, '/') + "/"@ + auth.tenant_id->0@
        + "/oauth2/v2.0/token"@
    &&& r.post
    &&& llm::header_pairs(r.headers@) == Seq::<(Seq<char>, Seq<char>)>::empty()
    &&& llm::header_pairs(r.params@) == seq![
        ("grant_type"@, "client_credentials"@),
        ("client_id"@, auth.client_id->0@),
        ("client_secret"@, auth.client_secret->0@),
        ("scope"@, llm::or_default(auth.scope, DEFAULT_AZURE_COGNITIVE_SCOPE@)),
    ]
    &&& r.timeout_secs == 30
    &&& r.kind@ == "Entra"@
}

/// The request of a managed identity.
pub open spec fn is_identity_request(r: TokenRequest, auth: AuthConfig) -> bool {
    let base = llm::or_default(auth.token_url, DEFAULT_IMDS_URL@);
    &&& r.url@ == text::without_trailing(base, '/') + "/metadata/identity/oauth2/token"@
    &&& !r.post
    &&& llm::header_pairs(r.headers@) == seq![("Metadata"@, "true"@)]
    &&& llm::header_pairs(r.params@) == seq![
        ("api-version"@, "2018-02-01"@),
        ("resource"@, llm::or_default(auth.scope, DEFAULT_AZURE_IMDS_RESOURCE@)),
    ]
    &&& r.timeout_secs == 10
    &&& r.kind@ == "managed identity"@
}

/// The texts that identify a token in the cache. No secret of the client is
/// among them.
pub open spec fn key_parts(auth: AuthConfig) -> Seq<Seq<char>> {
    match auth.mode {
        AuthMode::ApiKey => Seq::empty(),
        AuthMode::TokenCommand => seq!["command"@, auth.token_command->0@, ""@],
        AuthMode::EntraClientCredentials => seq![
            "entra-cc"@,
            auth.tenant_id->0@,
            auth.client_id->0@,
            llm::or_default(auth.scope, DEFAULT_AZURE_COGNITIVE_SCOPE@),
            llm::or_default(auth.token_url, DEFAULT_TOKEN_URL@),
        ],
        AuthMode::EntraManagedIdentity => seq![
            "imds"@,
            llm::or_default(auth.scope, DEFAULT_AZURE_IMDS_RESOURCE@),
            llm::or_default(auth.token_url, DEFAULT_IMDS_URL@),
        ],
    }
}

/// A source is the one that the settings ask for.
pub open spec fn is_source(s: TokenSource, auth: AuthConfig, static_key: Option<Seq<char>>) -> bool {
    match auth.mode {
        AuthMode::ApiKey => match s {
            TokenSource::Static(Some(k)) => static_key == Some(k@),
            TokenSource::Static(None) => static_key is None,
            _ => false,
        },
        AuthMode::TokenCommand => s matches TokenSource::Command { command, ttl, key } && command@
            == auth.token_command->0@ && ttl == command_ttl(auth) && key == key_of(key_parts(auth)),
        AuthMode::EntraClientCredentials => s matches TokenSource::Endpoint { request, key }
            && is_credentials_request(request, auth) && key == key_of(key_parts(auth)),
        AuthMode::EntraManagedIdentity => s matches TokenSource::Endpoint { request, key }
            && is_identity_request(request, auth) && key == key_of(key_parts(auth)),
    }
}

/// How the token of an endpoint is obtained.
///
/// # Errors
///
/// Returns a description when the configured auth mode is incomplete
/// (missing tenant/client/secret/command).
pub fn token_source(auth: &AuthConfig, static_key: Option<&str>) -> (r: Result<TokenSource, String>)
    ensures
        match r {
            Ok(s) => missing_setting(*auth) is None && is_source(
                s,
                *auth,
                llm::option_view(static_key),
            ),
            Err(e) => missing_setting(*auth) == Some(e@),
        },
{
    match auth.mode {
        AuthMode::ApiKey => match static_key {
            Some(k) => Ok(TokenSource::Static(Some(k.to_owned()))),
            None => Ok(TokenSource::Static(None)),
        },
        AuthMode::TokenCommand => {
            let command = match &auth.token_command {
                Some(c) => c.clone(),
                None => {
                    return Err(
                        "auth.mode = \"token-command\" requires auth.token_command".to_owned(),
                    );
                },
            };
            let parts = vec!["command".to_owned(), command.clone(), "".to_owned()];
            assert(text::views(parts@) =~= key_parts(*auth));
            let key: u64 = cache_key(&parts);
            Ok(TokenSource::Command { command, ttl: effective_cmd_ttl(auth), key })
        },
        AuthMode::EntraClientCredentials => credentials_source(auth),
        AuthMode::EntraManagedIdentity => {
            let base = llm::value_or(&auth.token_url, DEFAULT_IMDS_URL);
            let resource = llm::value_or(&auth.scope, DEFAULT_AZURE_IMDS_RESOURCE);
            let parts = vec!["imds".to_owned(), resource.clone(), base.clone()];
            assert(text::views(parts@) =~= key_parts(*auth));
            let key: u64 = cache_key(&parts);
            let mut url = text::trim_trailing(base.as_str(), '/');
            url.append("/metadata/identity/oauth2/token");
            let headers = vec![("Metadata".to_owned(), "true".to_owned())];
            let params = vec![
                ("api-version".to_owned(), "2018-02-01".to_owned()),
                ("resource".to_owned(), resource),
            ];
            let request = TokenRequest {
                url,
                post: false,
                headers,
                params,
                timeout_secs: 10,
                kind: "managed identity".to_owned(),
            };
            assert(llm::header_pairs(request.headers@) =~= seq![("Metadata"@, "true"@)]);
            assert(llm::header_pairs(request.params@) =~= seq![
                ("api-version"@, "2018-02-01"@),
                ("resource"@, llm::or_default(auth.scope, DEFAULT_AZURE_IMDS_RESOURCE@)),
            ]);
            Ok(TokenSource::Endpoint { request, key })
        },
    }
}

/// The token source of a client-credentials grant.
fn credentials_source(auth: &AuthConfig) -> (r: Result<TokenSource, String>)
    requires
        auth.mode == AuthMode::EntraClientCredentials,
    ensures
        match r {
            Ok(s) => missing_setting(*auth) is None && is_source(s, *auth, None),
            Err(e) => missing_setting(*auth) == Some(e@),
        },
{
    let tenant = match &auth.tenant_id {
        Some(t) => t,
        None => {
            return Err(
                "auth.mode = \"entra-client-credentials\" requires auth.tenant_id".to_owned(),
            );
        },
    };
    let client_id = match &auth.client_id {
        Some(c) => c,
        None => {
            return Err(
                "auth.mode = \"entra-client-credentials\" requires auth.client_id".to_owned(),
            );
        },
    };
    let secret = match &auth.client_secret {
        Some(c) => c,
        None => {
            return Err(
                "auth.mode = \"entra-client-credentials\" requires auth.client_secret".to_owned(),
            );
        },
    };
    let base = llm::value_or(&auth.token_url, DEFAULT_TOKEN_URL);
    let scope = llm::value_or(&auth.scope, DEFAULT_AZURE_COGNITIVE_SCOPE);
    let parts = vec![
        "entra-cc".to_owned(),
        tenant.clone(),
        client_id.clone(),
        scope.clone(),
        base.clone(),
    ];
    assert(text::views(parts@) =~= key_parts(*auth));
    let key: u64 = cache_key(&parts);
    let mut url = text::trim_trailing(base.as_str(), '/');
    url.append("/");
    url.append(tenant.as_str());
    url.append("/oauth2/v2.0/token");
    let params = vec![
        ("grant_type".to_owned(), "client_credentials".to_owned()),
        ("client_id".to_owned(), client_id.clone()),
        ("client_secret".to_owned(), secret.clone()),
        ("scope".to_owned(), scope),
    ];
    let request = TokenRequest {
        url,
        post: true,
        headers: Vec::new(),
        params,
        timeout_secs: 30,
        kind: "Entra".to_owned(),
    };
    assert(llm::header_pairs(request.headers@) =~= Seq::<(Seq<char>, Seq<char>)>::empty());
    assert(llm::header_pairs(request.params@) =~= seq![
        ("grant_type"@, "client_credentials"@),
        ("client_id"@, auth.client_id->0@),
        ("client_secret"@, auth.client_secret->0@),
        ("scope"@, llm::or_default(auth.scope, DEFAULT_AZURE_COGNITIVE_SCOPE@)),
    ]);
    Ok(TokenSource::Endpoint { request, key })
}

/// What has to be done to get a token.
pub enum TokenStep {
    /// The token is known, or there is none to send.
    Ready(Option<String>),
    /// Run this command, then [`command_finished`].
    Run {
        /// The shell command.
        command: String,
        /// Seconds for which the token is kept.
        ttl: u64,
        /// Cache key.
        key: u64,
    },
    /// Send this request, then [`response_received`].
    Send {
        /// The request.
        request: TokenRequest,
        /// Cache key.
        key: u64,
    },
}

/// A step is the one that a source asks for, given what is cached.
pub open spec fn is_step(step: TokenStep, source: TokenSource, cache: CacheView, now: u64) -> bool {
    match source {
        TokenSource::Static(k) => step == TokenStep::Ready(k),
        TokenSource::Command { command, ttl, key } => match valid_token(cache, key, now) {
            Some(t) => step matches TokenStep::Ready(Some(token)) && token@ == t,
            None => step == (TokenStep::Run { command, ttl, key }),
        },
        TokenSource::Endpoint { request, key } => match valid_token(cache, key, now) {
            Some(t) => step matches TokenStep::Ready(Some(token)) && token@ == t,
            None => step == (TokenStep::Send { request, key }),
        },
    }
}

/// Resolves the bearer token for an endpoint as far as the settings and the
/// cache go: the token, no token (api-key mode without a key, which callers
/// treat as "no auth header"), or the command or request that yields it.
///
/// # Errors
///
/// Returns a description when the configured auth mode is incomplete
/// (missing tenant/client/secret/command).
pub fn resolve_bearer_token(
    auth: &AuthConfig,
    static_key: Option<&str>,
    cache: &TokenCache,
    now: u64,
) -> (r: Result<TokenStep, String>)
    ensures
        match r {
            Ok(step) => missing_setting(*auth) is None && exists|source: TokenSource| #[trigger]
                is_source(source, *auth, llm::option_view(static_key)) && is_step(
                    step,
                    source,
                    cache@,
                    now,
                ),
            Err(e) => missing_setting(*auth) == Some(e@),
        },
{
    let source = match token_source(auth, static_key) {
        Ok(s) => s,
        Err(e) => {
            return Err(e);
        },
    };
    let ghost chosen = source;
    let step = match source {
        TokenSource::Static(k) => TokenStep::Ready(k),
        TokenSource::Command { command, ttl, key } => match cache.get(key, now) {
            Some(t) => TokenStep::Ready(Some(t)),
            None => TokenStep::Run { command, ttl, key },
        },
        TokenSource::Endpoint { request, key } => match cache.get(key, now) {
            Some(t) => TokenStep::Ready(Some(t)),
            None => TokenStep::Send { request, key },
        },
    };
    assert(is_source(chosen, *auth, llm::option_view(static_key)));
    Ok(step)
}

/// The first line of what a command printed, without the spaces around it.
pub open spec fn first_line(stdout: Seq<char>) -> Seq<char> {
    text::trimmed(stdout.take(text::index_of(stdout, '\n')))
}

/// What the outcome of a token command means.
pub open spec fn command_meaning(
    success: bool,
    status: Seq<char>,
    stdout: Seq<char>,
    stderr: Seq<char>,
) -> Result<Seq<char>, Seq<char>> {
    if !success {
        Err("token command failed ("@ + status + "): "@ + stderr)
    } else if first_line(stdout).len() == 0 {
        Err("token command produced empty stdout"@)
    } else {
        Ok(first_line(stdout))
    }
}

/// The observed secrets after one more value was obtained.
pub open spec fn with_observed(before: Seq<Seq<char>>, value: Seq<char>) -> Seq<Seq<char>> {
    if value.len() < redact::MIN_SECRET_LEN {
        before
    } else {
        redact::registered(before, value)
    }
}

/// Reads the outcome of a token command, or of a header command: the first,
/// trimmed line of its stdout, which from now on counts as a secret.
///
/// # Errors
///
/// Returns a description when the command exits non-zero or produces empty
/// output.
pub fn run_token_command(
    observed: &mut ObservedRegistry,
    success: bool,
    status: &str,
    stdout: &str,
    stderr: &str,
) -> (r: Result<String, String>)
    requires
        old(observed).wf(),
    ensures
        final(observed).wf(),
        match r {
            Ok(line) => command_meaning(success, status@, stdout@, stderr@) == Ok::<
                Seq<char>,
                Seq<char>,
            >(line@) && final(observed)@ == with_observed(old(observed)@, line@),
            Err(e) => command_meaning(success, status@, stdout@, stderr@) == Err::<
                Seq<char>,
                Seq<char>,
            >(e@) && final(observed)@ == old(observed)@,
        },
{
    if !success {
        let mut s = "token command failed (".to_owned();
        s.append(status);
        s.append("): ");
        s.append(stderr);
        return Err(s);
    }
    let chars = text::chars_of(stdout);
    let end: usize = text::find_char(&chars, '\n');
    let first = text::text_between(&chars, 0, end);
    assert(first@ =~= stdout@.take(text::index_of(stdout@, '\n')));
    let line = text::trim_text(first.as_str());
    if line.as_str().is_empty() {
        return Err("token command produced empty stdout".to_owned());
    }
    redact::observe_secret(observed, line.as_str());
    Ok(line)
}

/// Keeps the token that a command printed.
pub fn command_finished(
    cache: &mut TokenCache,
    now: u64,
    ttl: u64,
    key: u64,
    outcome: Result<String, String>,
) -> (r: Result<String, String>)
    ensures
        r == outcome,
        match outcome {
            Ok(token) => final(cache)@ == with_token(old(cache)@, key, now, 0, ttl, token@),
            Err(_) => final(cache)@ == old(cache)@,
        },
{
    match outcome {
        Ok(token) => {
            cache.store(key, now, 0, ttl, token.as_str());
            Ok(token)
        },
        Err(e) => Err(e),
    }
}

/// How many seconds a token is still good for, as its response says it:
/// `expires_in` is that number, `expires_on` the time, in seconds since 1970,
/// at which the token ends.
pub open spec fn remaining_life(j: Json, now: u64) -> Option<nat> {
    match j.member("expires_in"@).uint() {
        Some(n) => Some(n as nat),
        None => match j.member("expires_on"@).string() {
            Some(s) => match text::parsed_uint(s, u64::MAX as nat) {
                Some(n) => Some(
                    if n > now {
                        (n - now) as nat
                    } else {
                        0
                    },
                ),
                None => None,
            },
            None => None,
        },
    }
}

/// The lifetime that a token response reports, in seconds: one minute less
/// than the token is still good for, and at least one; 0 where the response
/// does not say.
pub open spec fn reported_ttl(j: Json, now: u64) -> u64 {
    match remaining_life(j, now) {
        Some(n) => if n < 120 {
            60
        } else {
            (n - 60) as u64
        },
        None => 0,
    }
}

/// A token that is still good for two minutes is given up one minute before
/// it ends.
pub proof fn law_token_ends_in_time(j: Json, now: u64)
    requires
        remaining_life(j, now) matches Some(n) && 120 <= n <= u64::MAX,
    ensures
        reported_ttl(j, now) + 60 == remaining_life(j, now)->0,
{
}

/// What a token response means: the lifetime and the token, or what is wrong.
pub open spec fn response_meaning(
    status: u16,
    body: Seq<char>,
    kind: Seq<char>,
    now: u64,
) -> Result<(u64, Seq<char>), Seq<char>> {
    if status != 200 {
        Err(
            kind + " token endpoint returned HTTP "@ + text::dec(status as nat) + ": "@
                + text::truncated(body, 300),
        )
    } else {
        match json::parsed_json(body) {
            Err(e) => Err(
                kind + " token endpoint returned non-JSON ("@ + e + "): "@ + text::truncated(
                    body,
                    300,
                ),
            ),
            Ok(j) => match j.member("access_token"@).string() {
                None => Err(
                    kind + " token response missing access_token: "@ + text::truncated(body, 300),
                ),
                Some(token) => Ok((reported_ttl(j, now), token)),
            },
        }
    }
}

/// A lifetime with a minute of safety.
fn shortened(said: u64) -> (r: u64)
    ensures
        r == if said < 120 {
            60
        } else {
            (said - 60) as u64
        },
{
    if said < 120 {
        60
    } else {
        said - 60
    }
}

/// The lifetime and the token of a token response, if it grants one.
pub open spec fn granted_token(status: u16, body: Seq<char>, now: u64) -> Option<
    (u64, Seq<char>),
> {
    match json::parsed_json(body) {
        Ok(j) => match j.member("access_token"@).string() {
            Some(token) => if status == 200 {
                Some((reported_ttl(j, now), token))
            } else {
                None
            },
            None => None,
        },
        Err(_) => None,
    }
}

/// The lifetime and the token of a token response, if it grants one.
fn read_token(status: u16, body: &str, now: u64) -> (r: Option<(u64, String)>)
    ensures
        match r {
            Some((ttl, token)) => granted_token(status, body@, now) == Some((ttl, token@)),
            None => granted_token(status, body@, now) is None,
        },
{
    if status != 200 {
        return None;
    }
    let value = match json::parse_json(body) {
        Ok(v) => v,
        Err(_) => return None,
    };
    let token = match json::string_of(json::member_of(&value, "access_token")) {
        Some(t) => t.to_owned(),
        None => return None,
    };
    let ttl: u64 = match json::uint_of(json::member_of(&value, "expires_in")) {
        Some(n) => shortened(n),
        None => match json::string_of(json::member_of(&value, "expires_on")) {
            Some(s) => match text::parse_uint(s, u64::MAX) {
                Some(n) => shortened(
                    if n > now {
                        n - now
                    } else {
                        0
                    },
                ),
                None => 0,
            },
            None => 0,
        },
    };
    Some((ttl, token))
}

/// Parses an Entra / IMDS token HTTP response and extracts the access token
/// plus its server-issued TTL (seconds). The TTL is 0 when the server did not
/// report one (the caller falls back to its configured TTL). `now` is the time
/// in seconds since 1970. The token from then on counts as a secret. A response that grants none is quoted, so byte
/// 300 of it must be where a character ends.
pub fn parse_token_response(
    observed: &mut ObservedRegistry,
    status: u16,
    body: &str,
    kind: &str,
    now: u64,
) -> (r: Result<(u64, String), String>)
    requires
        old(observed).wf(),
        granted_token(status, body@, now) is None ==> text::can_cut(body@, 300),
    ensures
        final(observed).wf(),
        match r {
            Ok((ttl, token)) => response_meaning(status, body@, kind@, now) == Ok::<
                (u64, Seq<char>),
                Seq<char>,
            >((ttl, token@)) && final(observed)@ == with_observed(old(observed)@, token@),
            Err(e) => response_meaning(status, body@, kind@, now) == Err::<(u64, Seq<char>), Seq<char>>(
                e@,
            ) && final(observed)@ == old(observed)@,
        },
{
    if let Some((ttl, token)) = read_token(status, body, now) {
        redact::observe_secret(observed, token.as_str());
        return Ok((ttl, token));
    }
    let snippet = text::truncate(body, 300);
    let mut message = kind.to_owned();
    if status != 200 {
        message.append(" token endpoint returned HTTP ");
        message.append(text::decimal(status as u128).as_str());
        message.append(": ");
    } else {
        match json::parse_json(body) {
            Ok(_) => message.append(" token response missing access_token: "),
            Err(e) => {
                message.append(" token endpoint returned non-JSON (");
                message.append(e.as_str());
                message.append("): ");
            },
        }
    }
    message.append(snippet.as_str());
    Err(message)
}

/// Like [`parse_token_response`], for any response: `None` where a response
/// that grants no token cannot be quoted.
pub fn try_parse_token_response(
    observed: &mut ObservedRegistry,
    status: u16,
    body: &str,
    kind: &str,
    now: u64,
) -> (r: Option<Result<(u64, String), String>>)
    requires
        old(observed).wf(),
    ensures
        final(observed).wf(),
        r is None <==> granted_token(status, body@, now) is None && !text::can_cut(body@, 300),
        match r {
            Some(Ok((ttl, token))) => response_meaning(status, body@, kind@, now) == Ok::<
                (u64, Seq<char>),
                Seq<char>,
            >((ttl, token@)) && final(observed)@ == with_observed(old(observed)@, token@),
            Some(Err(e)) => response_meaning(status, body@, kind@, now) == Err::<
                (u64, Seq<char>),
                Seq<char>,
            >(e@) && final(observed)@ == old(observed)@,
            None => final(observed)@ == old(observed)@,
        },
{
    if text::cuttable(body, 300) || read_token(status, body, now).is_some() {
        Some(parse_token_response(observed, status, body, kind, now))
    } else {
        None
    }
}

/// Keeps the token that a token endpoint answered with.
pub fn response_received(
    cache: &mut TokenCache,
    now: u64,
    key: u64,
    outcome: Result<(u64, String), String>,
) -> (r: Result<String, String>)
    ensures
        match outcome {
            Ok((ttl, token)) => r == Ok::<String, String>(token) && final(cache)@ == with_token(
                old(cache)@,
                key,
                now,
                ttl,
                DEFAULT_COMMAND_CACHE_TTL_SECS,
                token@,
            ),
            Err(e) => r == Err::<String, String>(e) && final(cache)@ == old(cache)@,
        },
{
    match outcome {
        Ok((ttl, token)) => {
            cache.store(key, now, ttl, DEFAULT_COMMAND_CACHE_TTL_SECS, token.as_str());
            Ok(token)
        },
        Err(e) => Err(e),
    }
}

/// What the outcome of a header command means for the header `name`.
pub open spec fn command_header(name: Seq<char>, outcome: Result<String, String>) -> Result<
    Seq<char>,
    Seq<char>,
> {
    match outcome {
        Err(e) => Err("header command for `"@ + name + "` failed: "@ + e@),
        Ok(value) => if text::trimmed(value@).len() == 0 {
            Err("header command for `"@ + name + "` produced an empty value"@)
        } else {
            Ok(value@)
        },
    }
}

/// The value of the header `name`, as its command printed it.
///
/// # Errors
///
/// An authentication error when the command failed or printed nothing.
pub fn command_header_value(name: &str, outcome: Result<String, String>) -> (r: Result<
    String,
    LlmCallError,
>)
    ensures
        match r {
            Ok(v) => command_header(name@, outcome) == Ok::<Seq<char>, Seq<char>>(v@),
            Err(LlmCallError::Auth { message }) => command_header(name@, outcome) == Err::<
                Seq<char>,
                Seq<char>,
            >(message@),
            Err(_) => false,
        },
{
    let mut message = "header command for `".to_owned();
    message.append(name);
    match outcome {
        Err(e) => {
            message.append("` failed: ");
            message.append(e.as_str());
            Err(LlmCallError::Auth { message })
        },
        Ok(value) => {
            if text::trim_text(value.as_str()).as_str().is_empty() {
                message.append("` produced an empty value");
                return Err(LlmCallError::Auth { message });
            }
            Ok(value)
        },
    }
}

/// A token is kept for a little less than it lives, and for a minute at least:
/// a minute is taken off, whether its life is told in seconds or as the time at
/// which it ends. Where nothing is told nothing is reported.
pub proof fn law_tokens_are_renewed_in_time(
    reply: Map<Seq<char>, Json>,
    now: u64,
    life: u64,
    end: u64,
)
    ensures
        reply.contains_key("expires_in"@) && reply["expires_in"@] == Json::UInt(life)
            ==> reported_ttl(Json::Obj(reply), now) == if life < 120 {
            60
        } else {
            life - 60
        },
        !reply.contains_key("expires_in"@) && reply.contains_key("expires_on"@)
            && reply["expires_on"@] == Json::Str(text::dec(end as nat)) && now <= end
            ==> reported_ttl(Json::Obj(reply), now) == if end - now < 120 {
            60
        } else {
            end - now - 60
        },
        !reply.contains_key("expires_in"@) && reply.contains_key("expires_on"@)
            && reply["expires_on"@] == Json::Str(text::dec(end as nat)) && now > end
            ==> reported_ttl(Json::Obj(reply), now) == 60,
        !reply.contains_key("expires_in"@) && !reply.contains_key("expires_on"@) ==> reported_ttl(
            Json::Obj(reply),
            now,
        ) == 0,
{
    text::law_written_numbers_read_back(end as nat, u64::MAX as nat);
}

/// The token of a command is kept as long as its setting says, at least a
/// second, and five minutes where it says nothing.
pub proof fn law_command_tokens_are_kept_as_set(auth: AuthConfig)
    ensures
        command_ttl(auth) >= 1,
        auth.cache_ttl_secs is None ==> command_ttl(auth) == 300,
        (auth.cache_ttl_secs matches Some(n) && n > 0) ==> command_ttl(auth)
            == auth.cache_ttl_secs->0,
{
}

/// Where the credential comes from: the static key where that is the mode;
/// else a token that is still valid; else a command is run or a request sent.
pub proof fn law_credentials_come_from_their_mode(
    step: TokenStep,
    source: TokenSource,
    auth: AuthConfig,
    static_key: Option<Seq<char>>,
    cache: CacheView,
    now: u64,
)
    requires
        is_source(source, auth, static_key),
        is_step(step, source, cache, now),
    ensures
        auth.mode == AuthMode::ApiKey ==> match static_key {
            Some(k) => step matches TokenStep::Ready(Some(t)) && t@ == k,
            None => step == TokenStep::Ready(None),
        },
        auth.mode != AuthMode::ApiKey ==> !(step matches TokenStep::Ready(None)),
        auth.mode == AuthMode::TokenCommand ==> !(step is Send) && (
        step matches TokenStep::Run { command, ttl, .. } ==> command@ == auth.token_command->0@
            && ttl >= 1),
        auth.mode == AuthMode::EntraClientCredentials || auth.mode
            == AuthMode::EntraManagedIdentity ==> !(step is Run),
        step matches TokenStep::Send { request, .. } ==> (request.post <==> auth.mode
            == AuthMode::EntraClientCredentials),
        step matches TokenStep::Run { key, .. } ==> !(cache.contains_key(key) && cache[key].0
            > now),
        step matches TokenStep::Send { key, .. } ==> !(cache.contains_key(key) && cache[key].0
            > now),
        (auth.mode != AuthMode::ApiKey && cache.contains_key(key_of(key_parts(auth))) && cache[key_of(
            key_parts(auth),
        )].0 > now) ==> (step matches TokenStep::Ready(Some(t)) && t@ == cache[key_of(
            key_parts(auth),
        )].1),
{
}

/// What a request for a token says: who asks, for what, and with which proof.
pub proof fn law_token_requests_name_the_client(r: TokenRequest, auth: AuthConfig)
    requires
        is_credentials_request(r, auth),
    ensures
        text::has_text(r.url@, auth.tenant_id->0@),
        llm::header_pairs(r.params@).contains(("client_id"@, auth.client_id->0@)),
        llm::header_pairs(r.params@).contains(("client_secret"@, auth.client_secret->0@)),
        llm::header_pairs(r.params@).contains(("grant_type"@, "client_credentials"@)),
        auth.scope matches Some(s) ==> llm::header_pairs(r.params@).contains(("scope"@, s@)),
        auth.scope is None ==> llm::header_pairs(r.params@).contains(
            ("scope"@, "https://cognitiveservices.azure.com/.default"@),
        ),
        r.post,
{
    let p = llm::header_pairs(r.params@);
    assert(p[0] == ("grant_type"@, "client_credentials"@));
    assert(p[1] == ("client_id"@, auth.client_id->0@));
    assert(p[2] == ("client_secret"@, auth.client_secret->0@));
    assert(p[3].0 == "scope"@);
    let head = text::without_trailing(llm::or_default(auth.token_url, DEFAULT_TOKEN_URL@), '/')
        + "/"@;
    text::lemma_middle(head, auth.tenant_id->0@, "/oauth2/v2.0/token"@);
}

/// A setting is missing exactly where its mode needs it.
pub proof fn law_modes_need_their_settings(auth: AuthConfig)
    ensures
        missing_setting(auth) is Some <==> match auth.mode {
            AuthMode::ApiKey => false,
            AuthMode::TokenCommand => auth.token_command is None,
            AuthMode::EntraClientCredentials => auth.tenant_id is None || auth.client_id is None
                || auth.client_secret is None,
            AuthMode::EntraManagedIdentity => false,
        },
{
}

/// The token of a command is its first line without the space around it; a
/// command that fails, or says nothing there, gives none.
pub proof fn law_commands_speak_in_their_first_line(
    line: Seq<char>,
    rest: Seq<char>,
    status: Seq<char>,
    stderr: Seq<char>,
)
    requires
        text::lacks(line, '\n'),
    ensures
        command_meaning(false, status, line, stderr) matches Err(e) && text::has_text(e, stderr),
        text::trimmed(line).len() > 0 ==> {
            &&& command_meaning(true, status, line, stderr) == Ok::<Seq<char>, Seq<char>>(
                text::trimmed(line),
            )
            &&& command_meaning(true, status, line + seq!['\n'] + rest, stderr) == Ok::<
                Seq<char>,
                Seq<char>,
            >(text::trimmed(line))
        },
        text::trimmed(line).len() == 0 ==> {
            &&& command_meaning(true, status, line, stderr) is Err
            &&& command_meaning(true, status, line + seq!['\n'] + rest, stderr) is Err
        },
{
    let all = line + seq!['\n'] + rest;
    lemma_first_break(line, seq!['\n'] + rest);
    assert(line + (seq!['\n'] + rest) =~= all);
    lemma_first_break(line, Seq::empty());
    assert(line + Seq::<char>::empty() =~= line);
    assert(all.take(line.len() as int) =~= line);
    assert(line.take(line.len() as int) =~= line);
    let head = "token command failed ("@ + status + "): "@;
    text::lemma_middle(head, stderr, Seq::empty());
    assert(head + stderr + Seq::<char>::empty() =~= head + stderr);
}

/// The first line ends where the first break is.
proof fn lemma_first_break(line: Seq<char>, rest: Seq<char>)
    requires
        text::lacks(line, '\n'),
        rest.len() == 0 || rest[0] == '\n',
    ensures
        text::index_of(line + rest, '\n') == line.len(),
    decreases line.len(),
{
    let all = line + rest;
    if line.len() > 0 {
        assert(all[0] == line[0]);
        assert forall|i: int| 0 <= i < line.skip(1).len() implies #[trigger] line.skip(1)[i]
            != '\n' by {
            assert(line.skip(1)[i] == line[i + 1]);
        }
        lemma_first_break(line.skip(1), rest);
        assert(all.skip(1) =~= line.skip(1) + rest);
    } else {
        assert(all =~= rest);
    }
}

/// A reply grants a token if and only if it succeeded and holds one as a
/// string.
pub proof fn law_tokens_are_granted_by_success(
    status: u16,
    body: Seq<char>,
    kind: Seq<char>,
    now: u64,
)
    ensures
        response_meaning(status, body, kind, now) is Ok <==> status == 200 && json::parsed_json(
            body,
        ) is Ok && json::parsed_json(body)->Ok_0.member("access_token"@) is Str,
        response_meaning(status, body, kind, now) matches Ok((_, token)) ==> json::parsed_json(
            body,
        )->Ok_0.member("access_token"@) == Json::Str(token),
        response_meaning(status, body, kind, now) is Ok <==> granted_token(status, body, now)
            is Some,
        status != 200 ==> (response_meaning(status, body, kind, now) matches Err(e)
            && text::has_text(e, text::dec(status as nat))),
{
    if status != 200 {
        let head = kind + " token endpoint returned HTTP "@;
        let code = text::dec(status as nat);
        let rest = ": "@ + text::truncated(body, 300);
        text::lemma_middle(head, code, rest);
        assert(head + code + rest =~= response_meaning(status, body, kind, now)->Err_0);
    }
}

/// A header that a command gives is its value as it came; one that failed, or
/// is all space, is an error that names the header.
pub proof fn law_command_headers_have_a_value(name: Seq<char>, outcome: Result<String, String>)
    ensures
        outcome is Err ==> command_header(name, outcome) is Err,
        outcome matches Ok(v) ==> (command_header(name, outcome) is Ok <==> text::trimmed(v@).len()
            > 0),
        outcome matches Ok(v) ==> (command_header(name, outcome) matches Ok(h) ==> h == v@),
        command_header(name, outcome) matches Err(e) ==> text::has_text(e, name),
{
    if let Err(e) = command_header(name, outcome) {
        let head = "header command for `"@;
        match outcome {
            Err(x) => {
                text::lemma_middle(head, name, "` failed: "@ + x@);
                assert(head + name + ("` failed: "@ + x@) =~= e);
            },
            Ok(_) => {
                text::lemma_middle(head, name, "` produced an empty value"@);
            },
        }
    }
}

/// Two identities that differ are not kept under the same parts of a key: the
/// mode, the command, the tenant, the client and what the token is for all
/// count.
pub proof fn law_identities_are_kept_apart(a: AuthConfig, b: AuthConfig)
    requires
        key_parts(a) == key_parts(b),
        a.mode != AuthMode::ApiKey,
    ensures
        a.mode == b.mode,
        a.mode == AuthMode::TokenCommand ==> a.token_command->0@ == b.token_command->0@,
        a.mode == AuthMode::EntraClientCredentials ==> a.tenant_id->0@ == b.tenant_id->0@
            && a.client_id->0@ == b.client_id->0@,
        a.scope is Some && b.scope is Some && a.mode != AuthMode::TokenCommand ==> a.scope->0@
            == b.scope->0@,
{
    reveal_strlit("command");
    reveal_strlit("entra-cc");
    reveal_strlit("imds");
    let x = key_parts(a);
    let y = key_parts(b);
    assert(x.len() == y.len());
    assert(x[0] == y[0] && x[1] == y[1] && x[2] == y[2]);
    assert("command"@.len() == 7 && "entra-cc"@.len() == 8 && "imds"@.len() == 4);
    if a.mode == AuthMode::EntraClientCredentials {
        assert(x[3] == y[3]);
    }
}

/// A token is remembered as a secret once it is long enough to be one.
pub proof fn law_tokens_become_secrets(before: Seq<Seq<char>>, value: Seq<char>)
    ensures
        value.len() >= 6 ==> with_observed(before, value).contains(value),
        value.len() < 6 ==> with_observed(before, value) == before,
{
    if value.len() >= 6 && !before.contains(value) {
        let kept = if before.len() >= redact::OBSERVED_CAP {
            before.skip(1)
        } else {
            before
        };
        assert(kept.push(value)[kept.len() as int] == value);
    }
}

/// The identity of a machine is asked for by a query that says that it is one,
/// for the resource that is set or else for the cognitive services.
pub proof fn law_identity_requests_name_the_resource(r: TokenRequest, auth: AuthConfig)
    requires
        is_identity_request(r, auth),
    ensures
        !r.post,
        llm::header_pairs(r.headers@).contains(("Metadata"@, "true"@)),
        llm::header_pairs(r.params@).contains(("api-version"@, "2018-02-01"@)),
        auth.scope matches Some(s) ==> llm::header_pairs(r.params@).contains(("resource"@, s@)),
        auth.scope is None ==> llm::header_pairs(r.params@).contains(
            ("resource"@, "https://cognitiveservices.azure.com/"@),
        ),
        auth.token_url is None ==> r.url@
            == "http://169.254.169.254"@ + "/metadata/identity/oauth2/token"@,
        r.timeout_secs <= 30,
{
    let p = llm::header_pairs(r.params@);
    let h = llm::header_pairs(r.headers@);
    assert(h[0] == ("Metadata"@, "true"@));
    assert(p[0] == ("api-version"@, "2018-02-01"@));
    assert(p[1].0 == "resource"@);
    reveal_strlit("http://169.254.169.254");
    text::law_trailing_characters_go("http://169.254.169.254"@, '/');
}

} // verus!
