//! Authentication of the clients, and the limits that come with their keys.

use crate::config::{RelayKeyConfig, SecurityConfig};
use crate::error::{error_of, Error, ErrorKind, ErrorView};
use crate::middleware::headers::{is_header_name, takes_header_name};
use crate::relay::target::{bearer_of, strip_bearer};
use crate::request_limiter::{
    admission, count_request, counters_or, decrement_in_flight, enforce_ip_rate_limit_at,
    enforce_key_limits_at, ip_rate_error, no_requests, release_undoes_reservation, released,
    CounterTable,
};
use crate::server::redirect_of;
use crate::text::{
    before, before_first, copy_opt, copy_texts, lemma_index_of_first, same, starts_with, trim,
    trimmed, without_prefix,
};
use crate::{current_unix_secs, is_unix_now, KeyLimiterCounters, KeyRateLimitState};
use vstd::prelude::*;

verus! {

/// Per-request downstream auth context propagated from middleware.
#[derive(Debug)]
pub struct DownstreamAuthContext {
    /// Stable hash for the authenticated key.
    pub key_hash: Option<String>,
    /// Allowed downstream models for this key; unrestricted where there are none.
    pub allowed_models: Option<Vec<String>>,
    /// Allowed upstream providers for this key; unrestricted where there are none.
    pub allowed_providers: Option<Vec<String>>,
    /// Optional archive capture mode override for this key.
    pub archive_capture_mode: Option<String>,
    /// Whether in-flight quota tracking was reserved for this request.
    pub limiter_slot_reserved: bool,
}

/// The mathematical value of a [`DownstreamAuthContext`].
#[verifier::ext_equal]
pub struct AuthContextView {
    pub key_hash: Option<Seq<char>>,
    pub allowed_models: Option<Seq<Seq<char>>>,
    pub allowed_providers: Option<Seq<Seq<char>>>,
    pub archive_capture_mode: Option<Seq<char>>,
    pub limiter_slot_reserved: bool,
}

impl DeepView for DownstreamAuthContext {
    type V = AuthContextView;

    open spec fn deep_view(&self) -> AuthContextView {
        AuthContextView {
            key_hash: self.key_hash.deep_view(),
            allowed_models: self.allowed_models.deep_view(),
            allowed_providers: self.allowed_providers.deep_view(),
            archive_capture_mode: self.archive_capture_mode.deep_view(),
            limiter_slot_reserved: self.limiter_slot_reserved,
        }
    }
}

/// The context of a request that nothing restricts.
pub open spec fn unrestricted(key_hash: Option<Seq<char>>) -> AuthContextView {
    AuthContextView {
        key_hash,
        allowed_models: None,
        allowed_providers: None,
        archive_capture_mode: None,
        limiter_slot_reserved: false,
    }
}

impl Default for DownstreamAuthContext {
    fn default() -> (r: Self)
        ensures
            r.deep_view() == unrestricted(None),
    {
        DownstreamAuthContext {
            key_hash: None,
            allowed_models: None,
            allowed_providers: None,
            archive_capture_mode: None,
            limiter_slot_reserved: false,
        }
    }
}

/// What a request is checked by. A header that is no text counts as an empty
/// authorization, and as no other header. `gateway_value` is the value of the
/// header that the security settings name.
#[derive(Debug)]
pub struct AuthRequest {
    pub path: String,
    pub forwarded_for: Option<String>,
    pub real_ip: Option<String>,
    pub authorization: Option<String>,
    pub gateway_value: Option<String>,
}

/// Whether a path is not for clients' keys: any but those of the relay, which are
/// `/v1` and what stands below it.
pub open spec fn is_exempt(path: Seq<char>) -> bool {
    path != "/v1"@ && without_prefix(path, "/v1/"@) is None
}

/// Whether a path is not for clients' keys.
pub fn is_exempt_path(path: &str) -> (r: bool)
    ensures
        r == is_exempt(path@),
{
    !same(path, "/v1") && !starts_with(path, "/v1/")
}

/// Who a request comes from, by its proxy headers.
pub open spec fn client_identity(
    forwarded_for: Option<Seq<char>>,
    real_ip: Option<Seq<char>>,
) -> Seq<char> {
    let first = match forwarded_for {
        Some(list) => trimmed(before_first(list, ',')),
        None => Seq::empty(),
    };
    if first.len() > 0 {
        first
    } else {
        match real_ip {
            Some(ip) => if trimmed(ip).len() > 0 {
                trimmed(ip)
            } else {
                "unknown"@
            },
            None => "unknown"@,
        }
    }
}

/// Who a request comes from.
pub fn extract_client_identity(request: &AuthRequest) -> (r: String)
    ensures
        r@ == client_identity(request.forwarded_for.deep_view(), request.real_ip.deep_view()),
{
    if let Some(list) = &request.forwarded_for {
        let first = trim(before(list.as_str(), ','));
        if !first.is_empty() {
            return first.to_owned();
        }
    }
    if let Some(ip) = &request.real_ip {
        let ip = trim(ip.as_str());
        if !ip.is_empty() {
            return ip.to_owned();
        }
    }
    "unknown".to_owned()
}

/// The secret under which relay keys are hashed.
pub open spec fn relay_secret(log_secret: Option<Seq<char>>) -> Seq<char> {
    match log_secret {
        Some(secret) => secret,
        None => "modelwire-default-relay-secret"@,
    }
}

/// The secret under which relay keys are hashed.
pub fn relay_key_secret(log_secret: &Option<String>) -> (r: String)
    ensures
        r@ == relay_secret(log_secret.deep_view()),
{
    match log_secret {
        Some(secret) => secret.clone(),
        None => "modelwire-default-relay-secret".to_owned(),
    }
}

/// The first enabled key with this hash, from `from` on.
pub open spec fn key_with_hash(
    keys: Seq<RelayKeyConfig>,
    key_hash: Seq<char>,
    from: int,
) -> Option<int>
    decreases keys.len() - from,
{
    if from < 0 || from >= keys.len() {
        None
    } else if keys[from].enabled && keys[from].key_hash@ == key_hash {
        Some(from)
    } else {
        key_with_hash(keys, key_hash, from + 1)
    }
}

fn find_key(keys: &Vec<RelayKeyConfig>, key_hash: &str) -> (r: Option<usize>)
    ensures
        match r {
            Some(i) => i < keys.len() && key_with_hash(keys@, key_hash@, 0) == Some(i as int),
            None => key_with_hash(keys@, key_hash@, 0) is None,
        },
{
    let mut i: usize = 0;
    while i < keys.len()
        invariant
            i <= keys.len(),
            key_with_hash(keys@, key_hash@, 0) == key_with_hash(keys@, key_hash@, i as int),
        decreases keys.len() - i,
    {
        if keys[i].enabled && same(keys[i].key_hash.as_str(), key_hash) {
            return Some(i);
        }
        i = i + 1;
    }
    None
}

/// What the credentials of a request are worth.
#[derive(Debug)]
pub enum Credentials {
    Refused { error: Error },
    /// The request needs no key of its own.
    Open,
    /// A relay key, where no keys are configured.
    UnlistedKey,
    /// The configured relay key at this position.
    ListedKey { index: usize },
}

/// The mathematical value of [`Credentials`].
#[verifier::ext_equal]
pub enum CredentialsView {
    Refused { error: ErrorView },
    Open,
    UnlistedKey,
    ListedKey { index: int },
}

impl DeepView for Credentials {
    type V = CredentialsView;

    open spec fn deep_view(&self) -> CredentialsView {
        match self {
            Credentials::Refused { error } => CredentialsView::Refused {
                error: error.deep_view(),
            },
            Credentials::Open => CredentialsView::Open,
            Credentials::UnlistedKey => CredentialsView::UnlistedKey,
            Credentials::ListedKey { index } => CredentialsView::ListedKey {
                index: *index as int,
            },
        }
    }
}

/// A refusal for want of valid credentials.
pub open spec fn auth_failure(message: Seq<char>) -> CredentialsView {
    CredentialsView::Refused { error: error_of(ErrorKind::AuthFailed, message) }
}

/// What a relay key is worth.
pub open spec fn relay_key_credentials(
    keys: Seq<RelayKeyConfig>,
    authorization: Option<Seq<char>>,
    key_hash: Seq<char>,
) -> CredentialsView {
    match authorization {
        None => auth_failure("Missing authorization header"@),
        Some(value) => if without_prefix(value, "Bearer mw_"@) is None {
            auth_failure("Invalid relay key format"@)
        } else if keys.len() == 0 {
            CredentialsView::UnlistedKey
        } else {
            match key_with_hash(keys, key_hash, 0) {
                Some(index) => CredentialsView::ListedKey { index },
                None => auth_failure("Invalid relay key"@),
            }
        },
    }
}

/// What a request is worth that a trusted gateway vouches for with a header.
pub open spec fn gateway_credentials(
    header: Option<Seq<char>>,
    expected: Option<Seq<char>>,
    provided: Option<Seq<char>>,
) -> CredentialsView {
    match (header, expected) {
        (Some(name), Some(value)) => if !is_header_name(name) {
            CredentialsView::Refused {
                error: error_of(
                    ErrorKind::InternalError,
                    "Invalid trusted_passthrough_header configuration"@,
                ),
            }
        } else if provided != Some(value) {
            auth_failure("trusted_passthrough requires additional gateway control"@)
        } else {
            CredentialsView::Open
        },
        _ => auth_failure("trusted_passthrough requires configured gateway header and value"@),
    }
}

/// What the credentials of a request are worth, by the mode of authentication.
pub open spec fn credentials_of(
    security: SecurityConfig,
    request: AuthRequest,
    key_hash: Seq<char>,
) -> CredentialsView {
    let mode = security.downstream_auth@;
    if mode == "relay_key"@ {
        relay_key_credentials(
            security.relay_keys@,
            request.authorization.deep_view(),
            key_hash,
        )
    } else if mode == "passthrough"@ || mode == "trusted_passthrough"@ {
        if security.public_deployment && !security.allow_passthrough_keys {
            auth_failure("Passthrough auth is disabled for this public deployment"@)
        } else if mode == "trusted_passthrough"@ {
            gateway_credentials(
                security.trusted_passthrough_header.deep_view(),
                security.trusted_passthrough_value.deep_view(),
                request.gateway_value.deep_view(),
            )
        } else {
            CredentialsView::Open
        }
    } else if mode == "managed"@ {
        CredentialsView::Open
    } else if mode == "none"@ {
        if security.public_deployment {
            auth_failure("Authentication required for public deployment"@)
        } else {
            CredentialsView::Open
        }
    } else {
        CredentialsView::Refused {
            error: error_of(
                ErrorKind::InternalError,
                "Unknown downstream auth mode: "@ + mode,
            ),
        }
    }
}

fn refuse(message: &str) -> (r: Credentials)
    ensures
        r.deep_view() == auth_failure(message@),
{
    Credentials::Refused { error: Error::new(ErrorKind::AuthFailed, message) }
}

fn check_relay_key(
    keys: &Vec<RelayKeyConfig>,
    authorization: &Option<String>,
    key_hash: &str,
) -> (r: Credentials)
    ensures
        r.deep_view() == relay_key_credentials(keys@, authorization.deep_view(), key_hash@),
        r matches Credentials::ListedKey { index } ==> index < keys.len(),
{
    let value = match authorization {
        Some(value) => value.as_str(),
        None => {
            return refuse("Missing authorization header");
        },
    };
    if !starts_with(value, "Bearer mw_") {
        return refuse("Invalid relay key format");
    }
    if keys.len() == 0 {
        return Credentials::UnlistedKey;
    }
    match find_key(keys, key_hash) {
        Some(index) => Credentials::ListedKey { index },
        None => refuse("Invalid relay key"),
    }
}

fn check_gateway(
    header: &Option<String>,
    expected: &Option<String>,
    provided: &Option<String>,
) -> (r: Credentials)
    ensures
        r.deep_view() == gateway_credentials(
            header.deep_view(),
            expected.deep_view(),
            provided.deep_view(),
        ),
        !(r is ListedKey),
{
    match (header, expected) {
        (Some(name), Some(value)) => {
            if !takes_header_name(name.as_str()) {
                return Credentials::Refused {
                    error: Error::new(
                        ErrorKind::InternalError,
                        "Invalid trusted_passthrough_header configuration",
                    ),
                };
            }
            let vouched = match provided {
                Some(provided) => same(provided.as_str(), value.as_str()),
                None => false,
            };
            if vouched {
                Credentials::Open
            } else {
                refuse("trusted_passthrough requires additional gateway control")
            }
        },
        _ => refuse("trusted_passthrough requires configured gateway header and value"),
    }
}

/// What the credentials of a request are worth. `key_hash` is the hash of its
/// bearer token, where it has one, under [`relay_key_secret`].
pub fn check_credentials(
    security: &SecurityConfig,
    request: &AuthRequest,
    key_hash: &str,
) -> (r: Credentials)
    ensures
        r.deep_view() == credentials_of(*security, *request, key_hash@),
        r matches Credentials::ListedKey { index } ==> index < security.relay_keys.len(),
{
    let mode = security.downstream_auth.as_str();
    if same(mode, "relay_key") {
        return check_relay_key(&security.relay_keys, &request.authorization, key_hash);
    }
    let trusted = same(mode, "trusted_passthrough");
    if trusted || same(mode, "passthrough") {
        if security.public_deployment && !security.allow_passthrough_keys {
            return refuse("Passthrough auth is disabled for this public deployment");
        }
        if trusted {
            return check_gateway(
                &security.trusted_passthrough_header,
                &security.trusted_passthrough_value,
                &request.gateway_value,
            );
        }
        return Credentials::Open;
    }
    if same(mode, "managed") {
        return Credentials::Open;
    }
    if same(mode, "none") {
        if security.public_deployment {
            return refuse("Authentication required for public deployment");
        }
        return Credentials::Open;
    }
    Credentials::Refused {
        error: Error::about(ErrorKind::InternalError, "Unknown downstream auth mode: ", mode),
    }
}

/// What is to be done with a request.
#[derive(Debug)]
pub enum AuthVerdict {
    /// Handle it; it is not for clients' keys.
    Exempt,
    /// Answer with this error.
    Refused { error: Error },
    /// Handle it in this context, where it has one, and release the slot of the
    /// key when it is done, where it has one.
    Admitted { context: Option<DownstreamAuthContext>, release: Option<String> },
}

/// The mathematical value of an [`AuthVerdict`].
#[verifier::ext_equal]
pub enum AuthVerdictView {
    Exempt,
    Refused { error: ErrorView },
    Admitted { context: Option<AuthContextView>, release: Option<Seq<char>> },
}

impl DeepView for AuthVerdict {
    type V = AuthVerdictView;

    open spec fn deep_view(&self) -> AuthVerdictView {
        match self {
            AuthVerdict::Exempt => AuthVerdictView::Exempt,
            AuthVerdict::Refused { error } => AuthVerdictView::Refused {
                error: error.deep_view(),
            },
            AuthVerdict::Admitted { context, release } => AuthVerdictView::Admitted {
                context: context.deep_view(),
                release: release.deep_view(),
            },
        }
    }
}

/// A list as a restriction; an empty one restricts nothing.
pub open spec fn restriction(list: Seq<Seq<char>>) -> Option<Seq<Seq<char>>> {
    if list.len() == 0 {
        None
    } else {
        Some(list)
    }
}

fn restriction_of(list: &Vec<String>) -> (r: Option<Vec<String>>)
    ensures
        r.deep_view() == restriction(list.deep_view()),
{
    assert(list.deep_view().len() == list@.len());
    if list.len() == 0 {
        None
    } else {
        Some(copy_texts(list))
    }
}

/// The context of a request with a configured key.
pub open spec fn key_context(
    key: RelayKeyConfig,
    key_hash: Seq<char>,
    reserved: bool,
) -> AuthContextView {
    AuthContextView {
        key_hash: Some(key_hash),
        allowed_models: restriction(key.allowed_models.deep_view()),
        allowed_providers: restriction(key.allowed_providers.deep_view()),
        archive_capture_mode: key.archive_capture_mode.deep_view(),
        limiter_slot_reserved: reserved,
    }
}

/// The counters of the addresses after a request at `now`, and whether it is
/// within the rate of its address.
pub open spec fn address_admission(
    table: Map<Seq<char>, KeyLimiterCounters>,
    identity: Seq<char>,
    requests_per_minute: Option<u32>,
    now: u64,
) -> (Map<Seq<char>, KeyLimiterCounters>, bool) {
    match requests_per_minute {
        None => (table, true),
        Some(limit) => {
            let counters = counters_or(table, identity, no_requests());
            let (rate, within) = count_request(counters.rate, limit, now);
            if limit == 0 {
                (table, within)
            } else {
                (table.insert(identity, KeyLimiterCounters { rate, ..counters }), within)
            }
        },
    }
}

/// The tables of counters: of the addresses, and of the keys.
#[verifier::ext_equal]
pub struct LimiterView {
    pub addresses: Map<Seq<char>, KeyLimiterCounters>,
    pub keys: Map<Seq<char>, KeyLimiterCounters>,
}

/// What becomes of a request at `now`: the counters after it, and what is to be
/// done with it. The rate of its address is checked before its credentials, and
/// the limits of its key after them; a key without counters starts from `fresh`.
pub open spec fn authenticated(
    security: SecurityConfig,
    request: AuthRequest,
    key_hash: Seq<char>,
    now: u64,
    fresh: KeyLimiterCounters,
    before: LimiterView,
) -> (LimiterView, AuthVerdictView) {
    let identity = client_identity(
        request.forwarded_for.deep_view(),
        request.real_ip.deep_view(),
    );
    let (addresses, within) = address_admission(
        before.addresses,
        identity,
        security.ip_requests_per_minute,
        now,
    );
    let counted = LimiterView { addresses, keys: before.keys };
    if is_exempt(request.path@) {
        (before, AuthVerdictView::Exempt)
    } else if !within {
        (counted, AuthVerdictView::Refused { error: ip_rate_error() })
    } else {
        match credentials_of(security, request, key_hash) {
            CredentialsView::Refused { error } => (counted, AuthVerdictView::Refused { error }),
            CredentialsView::Open => (
                counted,
                AuthVerdictView::Admitted { context: None, release: None },
            ),
            CredentialsView::UnlistedKey => (
                counted,
                AuthVerdictView::Admitted {
                    context: Some(unrestricted(Some(key_hash))),
                    release: None,
                },
            ),
            CredentialsView::ListedKey { index } => {
                let key = security.relay_keys@[index];
                let (counters, came_of_it) = admission(
                    counters_or(before.keys, key_hash, fresh),
                    key.requests_per_minute,
                    key.max_concurrency,
                    now,
                );
                let limited = LimiterView {
                    addresses,
                    keys: before.keys.insert(key_hash, counters),
                };
                match came_of_it {
                    Err(error) => (limited, AuthVerdictView::Refused { error }),
                    Ok(reserved) => (
                        limited,
                        AuthVerdictView::Admitted {
                            context: Some(key_context(key, key_hash, reserved)),
                            release: if reserved {
                                Some(key_hash)
                            } else {
                                None
                            },
                        },
                    ),
                }
            },
        }
    }
}

/// Authenticates a request at `now_secs`.
pub fn auth_at(
    addresses: &mut CounterTable,
    keys: &mut CounterTable,
    security: &SecurityConfig,
    request: &AuthRequest,
    key_hash: &str,
    now_secs: u64,
    fresh: KeyLimiterCounters,
) -> (r: AuthVerdict)
    ensures
        (LimiterView { addresses: final(addresses)@, keys: final(keys)@ }, r.deep_view())
            == authenticated(
            *security,
            *request,
            key_hash@,
            now_secs,
            fresh,
            LimiterView { addresses: old(addresses)@, keys: old(keys)@ },
        ),
{
    if is_exempt_path(request.path.as_str()) {
        return AuthVerdict::Exempt;
    }
    let identity = extract_client_identity(request);
    if let Err(error) = enforce_ip_rate_limit_at(
        addresses,
        identity.as_str(),
        security.ip_requests_per_minute,
        now_secs,
    ) {
        return AuthVerdict::Refused { error };
    }
    match check_credentials(security, request, key_hash) {
        Credentials::Refused { error } => AuthVerdict::Refused { error },
        Credentials::Open => AuthVerdict::Admitted { context: None, release: None },
        Credentials::UnlistedKey => {
            let context = DownstreamAuthContext {
                key_hash: Some(key_hash.to_owned()),
                allowed_models: None,
                allowed_providers: None,
                archive_capture_mode: None,
                limiter_slot_reserved: false,
            };
            AuthVerdict::Admitted { context: Some(context), release: None }
        },
        Credentials::ListedKey { index } => {
            let key = &security.relay_keys[index];
            let enforcement = match enforce_key_limits_at(
                keys,
                key_hash,
                key.requests_per_minute,
                key.max_concurrency,
                now_secs,
                fresh,
            ) {
                Ok(enforcement) => enforcement,
                Err(error) => {
                    return AuthVerdict::Refused { error };
                },
            };
            let reserved = enforcement.in_flight_reserved;
            let context = DownstreamAuthContext {
                key_hash: Some(key_hash.to_owned()),
                allowed_models: restriction_of(&key.allowed_models),
                allowed_providers: restriction_of(&key.allowed_providers),
                archive_capture_mode: copy_opt(&key.archive_capture_mode),
                limiter_slot_reserved: reserved,
            };
            let release: Option<String> = if reserved {
                Some(key_hash.to_owned())
            } else {
                None
            };
            AuthVerdict::Admitted { context: Some(context), release }
        },
    }
}

/// The counters of a key that has none yet, in a window that began at `began`.
pub open spec fn fresh_since(began: u64) -> KeyLimiterCounters {
    KeyLimiterCounters {
        in_flight: 0,
        rate: KeyRateLimitState { window_started_at_secs: began, request_count: 0 },
    }
}

/// Authenticates a request now.
pub fn auth(
    addresses: &mut CounterTable,
    keys: &mut CounterTable,
    security: &SecurityConfig,
    request: &AuthRequest,
    key_hash: &str,
) -> (r: AuthVerdict)
    ensures
        exists|now: u64, began: u64| #[trigger]
            authenticated(
                *security,
                *request,
                key_hash@,
                now,
                fresh_since(began),
                LimiterView { addresses: old(addresses)@, keys: old(keys)@ },
            ) == (
                LimiterView { addresses: final(addresses)@, keys: final(keys)@ },
                r.deep_view(),
            ) && is_unix_now(now) && is_unix_now(began),
{
    let now_secs: u64 = current_unix_secs();
    let fresh = KeyLimiterCounters::default();
    let ghost before = LimiterView { addresses: addresses@, keys: keys@ };
    let r = auth_at(addresses, keys, security, request, key_hash, now_secs, fresh);
    assert(fresh == fresh_since(fresh.rate.window_started_at_secs));
    assert(authenticated(
        *security,
        *request,
        key_hash@,
        now_secs,
        fresh_since(fresh.rate.window_started_at_secs),
        before,
    ) == (LimiterView { addresses: addresses@, keys: keys@ }, r.deep_view()));
    r
}

/// Releases what a request holds of its key's limits when it is done.
pub fn finish_request(keys: &mut CounterTable, release: &Option<String>)
    ensures
        final(keys)@ == (match *release {
            Some(key_hash) => if old(keys)@.dom().contains(key_hash@) {
                old(keys)@.insert(key_hash@, released(old(keys)@[key_hash@]))
            } else {
                old(keys)@
            },
            None => old(keys)@,
        }),
{
    if let Some(key_hash) = release {
        decrement_in_flight(keys, key_hash.as_str());
    }
}

/// The bearer token of a request, whose hash stands for its key.
pub fn presented_key<'a>(request: &'a AuthRequest) -> (r: Option<&'a str>)
    ensures
        r.deep_view() == (match request.authorization {
            Some(value) => bearer_of(value@),
            None => None,
        }),
{
    match &request.authorization {
        Some(value) => strip_bearer(value.as_str()),
        None => None,
    }
}

/// A relay key opens the relay only where it is listed and enabled, or where no
/// keys are listed at all; its request gets exactly the restrictions listed for
/// it.
pub proof fn only_listed_keys_are_admitted(
    security: SecurityConfig,
    request: AuthRequest,
    key_hash: Seq<char>,
    now: u64,
    fresh: KeyLimiterCounters,
    before: LimiterView,
)
    requires
        security.downstream_auth@ == "relay_key"@,
        security.relay_keys@.len() > 0,
    ensures
        authenticated(security, request, key_hash, now, fresh, before).1 matches
            AuthVerdictView::Admitted { context, release } ==> {
            &&& key_with_hash(security.relay_keys@, key_hash, 0) matches Some(index)
            &&& 0 <= index < security.relay_keys@.len()
            &&& security.relay_keys@[index].enabled
            &&& security.relay_keys@[index].key_hash@ == key_hash
            &&& context matches Some(context)
            &&& context == key_context(
                security.relay_keys@[index],
                key_hash,
                context.limiter_slot_reserved,
            )
            &&& release == (if context.limiter_slot_reserved {
                Some(key_hash)
            } else {
                None
            })
        },
{
    lemma_key_with_hash(security.relay_keys@, key_hash, 0);
}

proof fn lemma_key_with_hash(keys: Seq<RelayKeyConfig>, key_hash: Seq<char>, from: int)
    ensures
        key_with_hash(keys, key_hash, from) matches Some(index) ==> 0 <= index < keys.len()
            && keys[index].enabled && keys[index].key_hash@ == key_hash,
    decreases keys.len() - from,
{
    if 0 <= from < keys.len() && !(keys[from].enabled && keys[from].key_hash@ == key_hash) {
        lemma_key_with_hash(keys, key_hash, from + 1);
    }
}

/// A public deployment lets no request through on no authentication, and passes
/// keys through only where that is allowed.
pub proof fn public_deployment_is_never_open(
    security: SecurityConfig,
    request: AuthRequest,
    key_hash: Seq<char>,
    now: u64,
    fresh: KeyLimiterCounters,
    before: LimiterView,
)
    requires
        security.public_deployment,
        !is_exempt(request.path@),
        security.downstream_auth@ == "none"@ || ((security.downstream_auth@ == "passthrough"@
            || security.downstream_auth@ == "trusted_passthrough"@)
            && !security.allow_passthrough_keys),
    ensures
        authenticated(security, request, key_hash, now, fresh, before).1 is Refused,
{
    reveal_strlit("none");
    reveal_strlit("relay_key");
    reveal_strlit("managed");
    reveal_strlit("passthrough");
    reveal_strlit("trusted_passthrough");
    assert("none"@.len() == 4);
    assert("relay_key"@.len() == 9);
    assert("managed"@.len() == 7);
    assert("passthrough"@.len() == 11);
    assert("trusted_passthrough"@.len() == 19);
}

/// Browsers reach the web interface without a key: where a path is redirected, its
/// request is let through to the redirect, and no counter is touched.
pub proof fn redirects_need_no_key(
    security: SecurityConfig,
    request: AuthRequest,
    key_hash: Seq<char>,
    now: u64,
    fresh: KeyLimiterCounters,
    before: LimiterView,
)
    requires
        redirect_of(request.path@) is Some,
    ensures
        authenticated(security, request, key_hash, now, fresh, before) == (
            before,
            AuthVerdictView::Exempt,
        ),
{
    reveal_strlit("/v1");
    reveal_strlit("/v1/");
    reveal_strlit("/");
    reveal_strlit("/admin");
    reveal_strlit("/login");
    reveal_strlit("/dashboard");
    reveal_strlit("/providers");
    reveal_strlit("/routes");
    reveal_strlit("/probes");
    reveal_strlit("/logs");
    reveal_strlit("/settings");
    let path = request.path@;
    assert(path.len() < 2 || path[1] != 'v');
    if without_prefix(path, "/v1/"@) is Some {
        assert(path.take("/v1/"@.len() as int)[1] == path[1]);
        assert("/v1/"@[1] == 'v');
    }
    assert("/v1"@[1] == 'v');
}

/// A request that is refused holds no slot, and one that was admitted gives its
/// slot back when it is done: either way as many requests of its key are under
/// way as before.
pub proof fn slots_are_given_back(
    security: SecurityConfig,
    request: AuthRequest,
    key_hash: Seq<char>,
    now: u64,
    fresh: KeyLimiterCounters,
    before: LimiterView,
)
    ensures
        ({
            let (after, verdict) = authenticated(
                security,
                request,
                key_hash,
                now,
                fresh,
                before,
            );
            let start = counters_or(before.keys, key_hash, fresh);
            let end = counters_or(after.keys, key_hash, fresh);
            match verdict {
                AuthVerdictView::Admitted { release: Some(key), .. } => {
                    &&& key == key_hash
                    &&& after.keys.dom().contains(key_hash)
                    &&& released(end).in_flight == start.in_flight
                },
                _ => end.in_flight == start.in_flight,
            }
        }),
{
    if let CredentialsView::ListedKey { index } = credentials_of(security, request, key_hash) {
        let key = security.relay_keys@[index];
        release_undoes_reservation(
            counters_or(before.keys, key_hash, fresh),
            key.requests_per_minute,
            key.max_concurrency,
            now,
        );
    }
}

/// A key is asked for on the relay's paths and on no others: `/v1` itself and all that
/// stands below it.
pub proof fn keys_guard_the_relay(rest: Seq<char>, path: Seq<char>)
    ensures
        !is_exempt("/v1"@),
        !is_exempt("/v1/"@ + rest),
        !is_exempt(path) ==> path == "/v1"@ || exists|rest: Seq<char>| path == "/v1/"@ + rest,
{
    let below = "/v1/"@ + rest;
    assert(below.subrange(0, "/v1/"@.len() as int) =~= "/v1/"@);
    if !is_exempt(path) && path != "/v1"@ {
        let behind = path.skip("/v1/"@.len() as int);
        assert(path =~= path.subrange(0, "/v1/"@.len() as int) + behind);
        assert(path == "/v1/"@ + behind);
    }
}

/// A request comes from the first address that it was forwarded for, or else from the
/// address that the proxy gives; what is blank tells nothing.
pub proof fn client_is_told_by_the_proxy(
    first: Seq<char>,
    others: Seq<char>,
    real_ip: Seq<char>,
    forwarded_for: Option<Seq<char>>,
)
    requires
        !first.contains(','),
    ensures
        trimmed(first).len() > 0 ==> client_identity(Some(first), Some(real_ip)) == trimmed(first),
        trimmed(first).len() > 0 ==> client_identity(Some(first + seq![','] + others), None)
            == trimmed(first),
        trimmed(first).len() == 0 && trimmed(real_ip).len() > 0 ==> client_identity(
            Some(first),
            Some(real_ip),
        ) == trimmed(real_ip),
        trimmed(real_ip).len() > 0 ==> client_identity(None, Some(real_ip)) == trimmed(real_ip),
        trimmed(real_ip).len() == 0 ==> client_identity(None, Some(real_ip)) == "unknown"@,
        client_identity(None, None) == "unknown"@,
{
    let list = first + seq![','] + others;
    lemma_index_of_first(first, ',', None);
    lemma_index_of_first(list, ',', Some(first.len() as int));
    assert(list[first.len() as int] == ',');
    assert(list.contains(','));
    assert forall|i: int| 0 <= i < first.len() implies first[i] != ',' by {
        assert(first.contains(first[i]));
    }
    if let Some(i) = list.index_of_first(',') {
        assert(list[i] == ',');
        if i < first.len() {
            assert(first[i] == ',');
        }
        assert(i == first.len());
        assert(list.take(i) =~= first);
    }
}

/// The key that a hash stands for is the first enabled one with that hash; where no
/// enabled key has it there is none.
pub proof fn key_is_the_first_with_its_hash(keys: Seq<RelayKeyConfig>, key_hash: Seq<char>, k: int)
    ensures
        key_with_hash(keys, key_hash, 0) matches Some(index) ==> {
            &&& 0 <= index < keys.len() && keys[index].enabled && keys[index].key_hash@ == key_hash
            &&& forall|i: int|
                0 <= i < index ==> !((#[trigger] keys[i]).enabled && keys[i].key_hash@ == key_hash)
        },
        key_with_hash(keys, key_hash, 0) is None ==> (0 <= k < keys.len() ==> !(keys[k].enabled
            && keys[k].key_hash@ == key_hash)),
{
    lemma_first_key(keys, key_hash, 0);
}

proof fn lemma_first_key(keys: Seq<RelayKeyConfig>, key_hash: Seq<char>, from: int)
    requires
        from >= 0,
    ensures
        key_with_hash(keys, key_hash, from) matches Some(index) ==> {
            &&& from <= index < keys.len() && keys[index].enabled && keys[index].key_hash@
                == key_hash
            &&& forall|i: int|
                from <= i < index ==> !((#[trigger] keys[i]).enabled && keys[i].key_hash@
                    == key_hash)
        },
        key_with_hash(keys, key_hash, from) is None ==> forall|i: int|
            from <= i < keys.len() ==> !((#[trigger] keys[i]).enabled && keys[i].key_hash@
                == key_hash),
    decreases keys.len() - from,
{
    if from < keys.len() && !(keys[from].enabled && keys[from].key_hash@ == key_hash) {
        lemma_first_key(keys, key_hash, from + 1);
    }
}

/// A relay key has to be sent as a bearer of its form. Where keys are listed only an
/// enabled one of them will do; where none are, any key of that form will.
pub proof fn relay_keys_are_asked_for(
    keys: Seq<RelayKeyConfig>,
    authorization: Option<Seq<char>>,
    key_hash: Seq<char>,
    rest: Seq<char>,
)
    ensures
        authorization is None ==> relay_key_credentials(keys, authorization, key_hash) is Refused,
        relay_key_credentials(keys, authorization, key_hash) is ListedKey || relay_key_credentials(
            keys,
            authorization,
            key_hash,
        ) is UnlistedKey ==> exists|rest: Seq<char>| authorization == Some("Bearer mw_"@ + rest),
        keys.len() == 0 ==> relay_key_credentials(keys, Some("Bearer mw_"@ + rest), key_hash)
            is UnlistedKey,
        keys.len() > 0 ==> (relay_key_credentials(keys, Some("Bearer mw_"@ + rest), key_hash)
            is ListedKey <==> exists|i: int|
            0 <= i < keys.len() && (#[trigger] keys[i]).enabled && keys[i].key_hash@ == key_hash),
        relay_key_credentials(keys, authorization, key_hash) matches CredentialsView::Refused {
            error,
        } ==> error.kind == ErrorKind::AuthFailed,
        !(relay_key_credentials(keys, authorization, key_hash) is Open),
{
    let word = "Bearer mw_"@;
    let whole = word + rest;
    assert(whole.subrange(0, word.len() as int) =~= word);
    lemma_first_key(keys, key_hash, 0);
    if let Some(value) = authorization {
        if without_prefix(value, word) is Some {
            let behind = value.skip(word.len() as int);
            assert(value =~= value.subrange(0, word.len() as int) + behind);
            assert(authorization == Some(word + behind));
        }
    }
}

/// A gateway vouches for a request just where its header and value are configured and
/// the request carries that very value.
pub proof fn gateway_vouches_with_its_value(
    header: Option<Seq<char>>,
    expected: Option<Seq<char>>,
    provided: Option<Seq<char>>,
)
    ensures
        gateway_credentials(header, expected, provided) is Open <==> header is Some && expected
            is Some && is_header_name(header->0) && provided == expected,
        gateway_credentials(header, expected, provided) is Open || gateway_credentials(
            header,
            expected,
            provided,
        ) is Refused,
        gateway_credentials(header, expected, provided) matches CredentialsView::Refused {
            error,
        } ==> error.kind == if header is Some && expected is Some && !is_header_name(header->0) {
            ErrorKind::InternalError
        } else {
            ErrorKind::AuthFailed
        },
{
}

/// Who has to prove what, by the mode: with relay keys a key; with a pass-through
/// nothing, unless the deployment is public and does not allow it, but under a trusted
/// gateway its value; with managed keys nothing here; with none nothing, unless the
/// deployment is public. Any other mode refuses all.
pub proof fn mode_decides_what_is_proved(
    security: SecurityConfig,
    request: AuthRequest,
    key_hash: Seq<char>,
)
    ensures
        ({
            let mode = security.downstream_auth@;
            let worth = credentials_of(security, request, key_hash);
            let shut = security.public_deployment && !security.allow_passthrough_keys;
            &&& mode == "relay_key"@ ==> worth == relay_key_credentials(
                security.relay_keys@,
                request.authorization.deep_view(),
                key_hash,
            )
            &&& mode == "passthrough"@ ==> (worth is Open <==> !shut)
            &&& mode == "trusted_passthrough"@ && !shut ==> worth == gateway_credentials(
                security.trusted_passthrough_header.deep_view(),
                security.trusted_passthrough_value.deep_view(),
                request.gateway_value.deep_view(),
            )
            &&& mode == "trusted_passthrough"@ && shut ==> worth is Refused
            &&& mode == "managed"@ ==> worth is Open
            &&& mode == "none"@ ==> (worth is Open <==> !security.public_deployment)
            &&& mode != "relay_key"@ ==> worth is Open || worth is Refused
            &&& (mode != "relay_key"@ && mode != "passthrough"@ && mode != "trusted_passthrough"@
                && mode != "managed"@ && mode != "none"@) ==> (
            worth matches CredentialsView::Refused { error } && error.kind
                == ErrorKind::InternalError)
        }),
{
    reveal_strlit("none");
    reveal_strlit("relay_key");
    reveal_strlit("managed");
    reveal_strlit("passthrough");
    reveal_strlit("trusted_passthrough");
    assert("none"@.len() == 4);
    assert("relay_key"@.len() == 9);
    assert("managed"@.len() == 7);
    assert("passthrough"@.len() == 11);
    assert("trusted_passthrough"@.len() == 19);
}

/// What a key allows goes with its requests: its models, its providers and its mode of
/// archiving, each as it is configured. An empty list restricts nothing.
pub proof fn context_is_that_of_the_key(key: RelayKeyConfig, key_hash: Seq<char>, reserved: bool)
    ensures
        ({
            let context = key_context(key, key_hash, reserved);
            let models = key.allowed_models.deep_view();
            let providers = key.allowed_providers.deep_view();
            &&& context.key_hash == Some(key_hash) && context.limiter_slot_reserved == reserved
            &&& context.allowed_models is None <==> models.len() == 0
            &&& context.allowed_models is Some ==> context.allowed_models->0 == models
            &&& context.allowed_providers is None <==> providers.len() == 0
            &&& context.allowed_providers is Some ==> context.allowed_providers->0 == providers
            &&& context.archive_capture_mode == key.archive_capture_mode.deep_view()
        }),
        ({
            let context = unrestricted(Some(key_hash));
            &&& context.key_hash == Some(key_hash) && context.allowed_models is None
            &&& context.allowed_providers is None && context.archive_capture_mode is None
            &&& !context.limiter_slot_reserved
        }),
{
}

/// A request that is over the rate of its address is refused for that, whatever it
/// proves; one within it is judged by what it proves, and one with a listed key by the
/// limits of that key.
pub proof fn address_is_counted_before_credentials(
    security: SecurityConfig,
    request: AuthRequest,
    key_hash: Seq<char>,
    now: u64,
    fresh: KeyLimiterCounters,
    before: LimiterView,
)
    requires
        !is_exempt(request.path@),
    ensures
        ({
            let (after, verdict) = authenticated(
                security,
                request,
                key_hash,
                now,
                fresh,
                before,
            );
            let (addresses, within) = address_admission(
                before.addresses,
                client_identity(request.forwarded_for.deep_view(), request.real_ip.deep_view()),
                security.ip_requests_per_minute,
                now,
            );
            let worth = credentials_of(security, request, key_hash);
            &&& after.addresses == addresses
            &&& !within ==> verdict == (AuthVerdictView::Refused { error: ip_rate_error() })
                && after.keys == before.keys
            &&& within && worth is Open ==> verdict == (AuthVerdictView::Admitted {
                context: None,
                release: None,
            }) && after.keys == before.keys
            &&& within && worth is Refused ==> verdict == (AuthVerdictView::Refused {
                error: worth->error,
            }) && after.keys == before.keys
            &&& within && worth is UnlistedKey ==> (verdict matches AuthVerdictView::Admitted {
                context: Some(context),
                release: None,
            } && context.key_hash == Some(key_hash)) && after.keys == before.keys
            &&& within && worth is ListedKey ==> {
                let key = security.relay_keys@[worth->index];
                let came_of_it = admission(
                    counters_or(before.keys, key_hash, fresh),
                    key.requests_per_minute,
                    key.max_concurrency,
                    now,
                );
                &&& after.keys == before.keys.insert(key_hash, came_of_it.0)
                &&& came_of_it.1 is Err ==> verdict == (AuthVerdictView::Refused {
                    error: came_of_it.1->Err_0,
                })
                &&& came_of_it.1 is Ok ==> verdict is Admitted
            }
        }),
{
}

/// An address is counted just where its rate is limited to more than nothing, and
/// under its own name; it is let through just where the count says so.
pub proof fn addresses_are_counted_where_limited(
    table: Map<Seq<char>, KeyLimiterCounters>,
    identity: Seq<char>,
    limit: u32,
    now: u64,
    other: Seq<char>,
)
    ensures
        address_admission(table, identity, None, now) == (table, true),
        address_admission(table, identity, Some(0), now) == (table, false),
        limit > 0 ==> {
            let (after, within) = address_admission(table, identity, Some(limit), now);
            let counters = if table.dom().contains(identity) {
                table[identity]
            } else {
                no_requests()
            };
            &&& within == count_request(counters.rate, limit, now).1
            &&& after[identity].rate == count_request(counters.rate, limit, now).0
            &&& after[identity].in_flight == counters.in_flight
            &&& other != identity ==> after.dom().contains(other) == table.dom().contains(other)
                && after[other] == table[other]
        },
        relay_secret(Some(identity)) == identity,
{
}

/// A key that was not counted yet starts with nothing counted and nothing under way, in
/// a window that begins when it is said to.
pub proof fn fresh_key_starts_from_nothing(began: u64)
    ensures
        fresh_since(began).in_flight == 0,
        fresh_since(began).rate.request_count == 0,
        fresh_since(began).rate.window_started_at_secs == began,
{
}

} // verus!
