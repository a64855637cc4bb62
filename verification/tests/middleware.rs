use argon2::password_hash::{PasswordHasher, SaltString};
use argon2::Argon2;
use modelwire_server::config::{RelayKeyConfig, SecurityConfig};
use modelwire_server::error::ErrorKind;
use modelwire_server::middleware::admin_auth::{
    admin_auth, check_password, constant_time_equal, extract_cookie, is_csrf_valid,
    is_local_password_auth_valid, is_state_changing_method, matches_admin_password, AdminRequest,
    AdminVerdict,
};
use modelwire_server::middleware::admin_origin::{
    admin_origin, configured_origin, is_localhost_origin, normalize_origin, same_origin,
};
use modelwire_server::middleware::auth::{
    auth, auth_at, check_credentials, extract_client_identity, finish_request, is_exempt_path,
    presented_key, relay_key_secret, AuthRequest, AuthVerdict, Credentials, DownstreamAuthContext,
};
use modelwire_server::middleware::logging::{log_hash_secret, redacted_authorization};
use modelwire_server::middleware::request_id::{
    request_id, response_request_id, RequestIdExt, REQUEST_ID_HEADER,
};
use modelwire_server::request_limiter::CounterTable;
use modelwire_server::{KeyLimiterCounters, KeyRateLimitState};

fn open_security(mode: &str) -> SecurityConfig {
    SecurityConfig {
        downstream_auth: mode.to_string(),
        relay_keys: Vec::new(),
        log_secret: None,
        managed_key_encryption_secret: None,
        public_deployment: false,
        allow_passthrough_keys: false,
        trusted_passthrough_header: None,
        trusted_passthrough_value: None,
        ip_requests_per_minute: None,
        admin_auth: "local_password".to_string(),
        admin_password: None,
    }
}

fn relay_key(hash: &str) -> RelayKeyConfig {
    RelayKeyConfig {
        key_hash: hash.to_string(),
        enabled: true,
        allowed_models: vec!["codex-main".to_string()],
        allowed_providers: Vec::new(),
        requests_per_minute: Some(2),
        max_concurrency: Some(1),
        archive_capture_mode: Some("metadata_only".to_string()),
    }
}

fn request_to(path: &str, authorization: Option<&str>) -> AuthRequest {
    AuthRequest {
        path: path.to_string(),
        forwarded_for: None,
        real_ip: None,
        authorization: authorization.map(|value| value.to_string()),
        gateway_value: None,
    }
}

fn fresh(now: u64) -> KeyLimiterCounters {
    KeyLimiterCounters {
        in_flight: 0,
        rate: KeyRateLimitState { window_started_at_secs: now, request_count: 0 },
    }
}

fn refusal(verdict: AuthVerdict) -> (ErrorKind, String) {
    match verdict {
        AuthVerdict::Refused { error } => (error.kind, error.message),
        other => panic!("should be refused: {:?}", other),
    }
}

#[test]
fn same_origin_matches_ignoring_path_and_case() {
    assert!(same_origin(
        "HTTPS://MODELWIRE.EXAMPLE.COM/admin",
        "https://modelwire.example.com/"
    ));
}

#[test]
fn same_origin_rejects_different_hosts() {
    assert!(!same_origin(
        "https://evil.example.com",
        "https://modelwire.example.com"
    ));
}

#[test]
fn origins_are_normalized() {
    assert_eq!(
        normalize_origin("  HTTPS://Host.Example:8443/a/b  ").as_deref(),
        Some("https://host.example:8443")
    );
    assert_eq!(normalize_origin("host.example"), None);
    assert_eq!(normalize_origin("https:///path"), None);
    assert_eq!(normalize_origin("   "), None);
    assert!(!same_origin("host.example", "host.example"));
}

#[test]
fn admin_origins_are_the_configured_one_or_local() {
    assert!(admin_origin(None, Some("https://relay.example")).is_ok());
    assert!(admin_origin(Some("https://RELAY.example/x"), Some("https://relay.example")).is_ok());
    let error = admin_origin(Some("https://evil.test"), Some("https://relay.example")).unwrap_err();
    assert_eq!(error.kind, ErrorKind::AuthFailed);
    assert_eq!(error.message, "Untrusted admin origin: https://evil.test");
    assert!(admin_origin(Some("http://localhost:5173"), None).is_ok());
    assert!(admin_origin(Some("http://[::1]:80"), Some("not a url")).is_ok());
    let error = admin_origin(Some("https://evil.test"), None).unwrap_err();
    assert_eq!(
        error.message,
        "Admin origin rejected: configure server.public_base_url for non-local admin access"
    );
    assert_eq!(configured_origin(Some("https://Relay.Example/ui")).as_deref(), Some("https://relay.example"));
    assert!(is_localhost_origin("http://127.0.0.1:8787"));
    assert!(!is_localhost_origin("http://10.0.0.1:8787"));
    for origin in ["http://localhost", "HTTPS://LocalHost:443/x", "http://[::1]", "http://localhost:"] {
        assert!(is_localhost_origin(origin));
    }
    for origin in [
        "http://localhost.evil.com",
        "http://127.0.0.1.evil.com:80",
        "http://[::1].evil.com",
        "http://localhost:80@evil.com",
        "http://evil.com://localhost",
        "http://localhost:80:80",
    ] {
        assert!(!is_localhost_origin(origin));
        assert!(admin_origin(Some(origin), None).is_err());
    }
}

#[test]
fn test_request_id_ext() {
    let ext = RequestIdExt("req_mw_test123".to_string());
    assert_eq!(ext.get_id(), "req_mw_test123");
}

#[test]
fn request_id_is_the_callers_or_a_fresh_one() {
    assert_eq!(REQUEST_ID_HEADER, "x-request-id");
    let id = request_id(Some("req_mw_acceptance_001"), "req_mw_fresh".to_string());
    assert_eq!(id.get_id(), "req_mw_acceptance_001");
    assert_eq!(response_request_id(&id), "req_mw_acceptance_001");
    let id = request_id(None, "req_mw_fresh".to_string());
    assert_eq!(id.get_id(), "req_mw_fresh");
}

#[test]
fn request_id_that_no_header_can_hold_is_unknown() {
    let id = RequestIdExt("line\nbreak".to_string());
    assert_eq!(response_request_id(&id), "unknown");
}

#[test]
fn logs_hold_hashes_in_place_of_credentials() {
    assert_eq!(log_hash_secret(&None), "default-secret");
    assert_eq!(log_hash_secret(&Some("s".to_string())), "s");
    assert_eq!(
        redacted_authorization(Some("Bearer sk-1"), "abcd").as_deref(),
        Some("Bearer abcd")
    );
    assert_eq!(
        redacted_authorization(Some("Basic dXNlcg=="), "abcd").as_deref(),
        Some("[REDACTED]")
    );
    assert_eq!(redacted_authorization(None, "abcd"), None);
}

#[test]
fn some_paths_need_no_key() {
    for path in ["/healthz", "/readyz", "/admin", "/admin/api/logs", "/", "/v2", "/v10/models"] {
        assert!(is_exempt_path(path));
    }
    for path in ["/v1", "/v1/", "/v1/responses", "/v1/unknown"] {
        assert!(!is_exempt_path(path));
    }
}

#[test]
fn only_the_relay_asks_for_a_key() {
    let mut security = open_security("relay_key");
    security.relay_keys.push(relay_key("hash-1"));
    security.ip_requests_per_minute = Some(0);
    let mut addresses = CounterTable::new();
    let mut keys = CounterTable::new();
    for path in ["/", "/definitely-not-exist", "/login"] {
        let request = request_to(path, None);
        let verdict =
            auth_at(&mut addresses, &mut keys, &security, &request, "", 1000, fresh(1000));
        assert!(matches!(verdict, AuthVerdict::Exempt));
    }
    security.ip_requests_per_minute = None;
    let request = request_to("/v1/unknown", None);
    let verdict = auth_at(&mut addresses, &mut keys, &security, &request, "", 1000, fresh(1000));
    assert_eq!(
        refusal(verdict),
        (ErrorKind::AuthFailed, "Missing authorization header".to_string())
    );
}

#[test]
fn clients_are_told_apart_by_their_address() {
    let mut request = request_to("/v1", None);
    assert_eq!(extract_client_identity(&request), "unknown");
    request.real_ip = Some("  10.1.1.1 ".to_string());
    assert_eq!(extract_client_identity(&request), "10.1.1.1");
    request.forwarded_for = Some(" 1.2.3.4 , 5.6.7.8".to_string());
    assert_eq!(extract_client_identity(&request), "1.2.3.4");
    request.forwarded_for = Some(" , 5.6.7.8".to_string());
    assert_eq!(extract_client_identity(&request), "10.1.1.1");
}

#[test]
fn listed_key_brings_its_scope_and_takes_a_slot() {
    let mut security = open_security("relay_key");
    security.relay_keys.push(relay_key("hash-1"));
    let mut addresses = CounterTable::new();
    let mut keys = CounterTable::new();
    let request = request_to("/v1/responses", Some("Bearer mw_key"));
    assert_eq!(presented_key(&request), Some("mw_key"));

    let verdict =
        auth_at(&mut addresses, &mut keys, &security, &request, "hash-1", 1000, fresh(1000));
    let (context, release) = match verdict {
        AuthVerdict::Admitted { context, release } => (context.unwrap(), release),
        other => panic!("should be admitted: {:?}", other),
    };
    assert_eq!(context.key_hash.as_deref(), Some("hash-1"));
    assert_eq!(context.allowed_models, Some(vec!["codex-main".to_string()]));
    assert_eq!(context.allowed_providers, None);
    assert_eq!(context.archive_capture_mode.as_deref(), Some("metadata_only"));
    assert!(context.limiter_slot_reserved);
    assert_eq!(release.as_deref(), Some("hash-1"));
    assert_eq!(keys.get("hash-1").unwrap().in_flight, 1);

    let verdict =
        auth_at(&mut addresses, &mut keys, &security, &request, "hash-1", 1001, fresh(1001));
    assert_eq!(
        refusal(verdict),
        (ErrorKind::RateLimited, "Relay key concurrency limit exceeded".to_string())
    );
    finish_request(&mut keys, &release);
    assert_eq!(keys.get("hash-1").unwrap().in_flight, 0);

    let verdict =
        auth_at(&mut addresses, &mut keys, &security, &request, "hash-1", 1002, fresh(1002));
    assert_eq!(
        refusal(verdict),
        (ErrorKind::RateLimited, "Relay key request rate limit exceeded".to_string())
    );
}

#[test]
fn keys_that_are_not_listed_are_refused() {
    let mut security = open_security("relay_key");
    security.relay_keys.push(relay_key("hash-1"));
    security.relay_keys[0].enabled = false;
    let mut addresses = CounterTable::new();
    let mut keys = CounterTable::new();
    let cases = [
        (None, "Missing authorization header"),
        (Some("Bearer sk-1"), "Invalid relay key format"),
        (Some("mw_key"), "Invalid relay key format"),
        (Some("Bearer mw_key"), "Invalid relay key"),
    ];
    for (authorization, message) in cases {
        let request = request_to("/v1/responses", authorization);
        let verdict = auth(&mut addresses, &mut keys, &security, &request, "hash-1");
        assert_eq!(refusal(verdict), (ErrorKind::AuthFailed, message.to_string()));
    }
}

#[test]
fn any_key_is_taken_where_none_is_listed() {
    let security = open_security("relay_key");
    let mut addresses = CounterTable::new();
    let mut keys = CounterTable::new();
    let request = request_to("/v1/responses", Some("Bearer mw_key"));
    match auth(&mut addresses, &mut keys, &security, &request, "hash-2") {
        AuthVerdict::Admitted { context: Some(context), release: None } => {
            assert_eq!(context.key_hash.as_deref(), Some("hash-2"));
            assert_eq!(context.allowed_models, None);
            assert!(!context.limiter_slot_reserved);
        }
        other => panic!("should be admitted: {:?}", other),
    }
    assert_eq!(relay_key_secret(&None), "modelwire-default-relay-secret");
    assert!(matches!(
        check_credentials(&security, &request, "hash-2"),
        Credentials::UnlistedKey
    ));
}

#[test]
fn public_deployments_are_never_open() {
    let mut addresses = CounterTable::new();
    let mut keys = CounterTable::new();
    let request = request_to("/v1/responses", None);
    let mut security = open_security("none");
    assert!(matches!(
        auth(&mut addresses, &mut keys, &security, &request, ""),
        AuthVerdict::Admitted { context: None, release: None }
    ));
    security.public_deployment = true;
    assert_eq!(
        refusal(auth(&mut addresses, &mut keys, &security, &request, "")).1,
        "Authentication required for public deployment"
    );
    security.downstream_auth = "passthrough".to_string();
    assert_eq!(
        refusal(auth(&mut addresses, &mut keys, &security, &request, "")).1,
        "Passthrough auth is disabled for this public deployment"
    );
    security.downstream_auth = "managed".to_string();
    assert!(matches!(
        auth(&mut addresses, &mut keys, &security, &request, ""),
        AuthVerdict::Admitted { context: None, release: None }
    ));
    security.downstream_auth = "oauth".to_string();
    assert_eq!(
        refusal(auth(&mut addresses, &mut keys, &security, &request, "")),
        (ErrorKind::InternalError, "Unknown downstream auth mode: oauth".to_string())
    );
    let request = request_to("/healthz", None);
    assert!(matches!(
        auth(&mut addresses, &mut keys, &security, &request, ""),
        AuthVerdict::Exempt
    ));
}

#[test]
fn trusted_gateways_show_their_header() {
    let mut addresses = CounterTable::new();
    let mut keys = CounterTable::new();
    let mut security = open_security("trusted_passthrough");
    let mut request = request_to("/v1/responses", Some("Bearer anything"));
    assert_eq!(
        refusal(auth(&mut addresses, &mut keys, &security, &request, "")).1,
        "trusted_passthrough requires configured gateway header and value"
    );
    security.trusted_passthrough_header = Some("bad header".to_string());
    security.trusted_passthrough_value = Some("yes".to_string());
    assert_eq!(
        refusal(auth(&mut addresses, &mut keys, &security, &request, "")),
        (
            ErrorKind::InternalError,
            "Invalid trusted_passthrough_header configuration".to_string()
        )
    );
    security.trusted_passthrough_header = Some("X-Gateway".to_string());
    assert_eq!(
        refusal(auth(&mut addresses, &mut keys, &security, &request, "")).1,
        "trusted_passthrough requires additional gateway control"
    );
    request.gateway_value = Some("yes".to_string());
    assert!(matches!(
        auth(&mut addresses, &mut keys, &security, &request, ""),
        AuthVerdict::Admitted { context: None, release: None }
    ));
}

#[test]
fn addresses_are_limited_before_keys_are_looked_at() {
    let mut addresses = CounterTable::new();
    let mut keys = CounterTable::new();
    let mut security = open_security("relay_key");
    security.ip_requests_per_minute = Some(1);
    let mut request = request_to("/v1/responses", None);
    request.real_ip = Some("10.0.0.9".to_string());
    let first = auth_at(&mut addresses, &mut keys, &security, &request, "", 500, fresh(500));
    assert_eq!(refusal(first).1, "Missing authorization header");
    let second = auth_at(&mut addresses, &mut keys, &security, &request, "", 559, fresh(559));
    assert_eq!(
        refusal(second),
        (ErrorKind::RateLimited, "IP request rate limit exceeded".to_string())
    );
    let third = auth_at(&mut addresses, &mut keys, &security, &request, "", 560, fresh(560));
    assert_eq!(refusal(third).1, "Missing authorization header");
}

#[test]
fn default_context_restricts_nothing() {
    let context = DownstreamAuthContext::default();
    assert_eq!(context.key_hash, None);
    assert_eq!(context.allowed_models, None);
    assert_eq!(context.allowed_providers, None);
    assert_eq!(context.archive_capture_mode, None);
    assert!(!context.limiter_slot_reserved);
}

fn admin_request(method: &str, authorization: Option<&str>) -> AdminRequest {
    AdminRequest {
        method: method.to_string(),
        authorization: authorization.map(|value| value.to_string()),
        cookies: Vec::new(),
        csrf_header: None,
    }
}

#[test]
fn admins_need_the_password() {
    let request = admin_request("GET", Some("Bearer secret"));
    assert!(matches!(
        admin_auth("local_password", Some("secret"), &request),
        AdminVerdict::Pass
    ));
    assert!(matches!(admin_auth("none", None, &request), AdminVerdict::Pass));
    for password in [None, Some("Secret"), Some("secret2"), Some("")] {
        match admin_auth("local_password", password, &request) {
            AdminVerdict::Refuse { error } => {
                assert_eq!(error.kind, ErrorKind::AuthFailed);
                assert_eq!(error.message, "Admin authentication required");
            }
            other => panic!("should be refused: {:?}", other),
        }
    }
    match admin_auth("ldap", Some("secret"), &request) {
        AdminVerdict::Refuse { error } => {
            assert_eq!(error.kind, ErrorKind::InternalError);
            assert_eq!(error.message, "Unsupported admin auth mode: ldap");
        }
        other => panic!("should be refused: {:?}", other),
    }
}

#[test]
fn argon2_hashes_are_verified() {
    let hash = "$argon2id$v=19$m=16,t=2,p=1$c29tZXNhbHQ$HDPZXNbj8cr5FfSEDVwz0A";
    assert!(!matches_admin_password(Some("Bearer wrong"), hash));
    assert!(!matches_admin_password(Some("Bearer wrong"), "$argon2 not a hash"));
    assert!(!matches_admin_password(Some(hash), hash));
    let salt = SaltString::encode_b64(b"modelwire-salt").unwrap();
    let hash = Argon2::default().hash_password(b"correct horse", &salt).unwrap().to_string();
    assert!(matches_admin_password(Some("Bearer correct horse"), &hash));
    assert!(!matches_admin_password(Some("Bearer correct"), &hash));
    assert!(check_password("$argon2x", "anything", true));
    assert!(!check_password("$argon2x", "$argon2x", false));
    assert!(check_password("plain", "plain", false));
    assert!(!is_local_password_auth_valid(Some("Bearer x"), None));
}

#[test]
fn sessions_need_a_csrf_token_to_change_anything() {
    let mut request = admin_request("POST", Some("Bearer secret"));
    assert!(matches!(
        admin_auth("local_password", Some("secret"), &request),
        AdminVerdict::Pass
    ));
    request.cookies = vec!["a=b; admin_session=1".to_string(), "admin_csrf = tok ".to_string()];
    match admin_auth("local_password", Some("secret"), &request) {
        AdminVerdict::Forbid { error } => {
            assert_eq!(error.kind, ErrorKind::RequestInvalid);
            assert_eq!(error.message, "Missing or invalid CSRF token");
        }
        other => panic!("should be forbidden: {:?}", other),
    }
    request.csrf_header = Some("other".to_string());
    assert!(matches!(
        admin_auth("local_password", Some("secret"), &request),
        AdminVerdict::Forbid { .. }
    ));
    request.csrf_header = Some("tok".to_string());
    assert!(matches!(
        admin_auth("local_password", Some("secret"), &request),
        AdminVerdict::Pass
    ));
    request.csrf_header = None;
    request.method = "GET".to_string();
    assert!(matches!(
        admin_auth("local_password", Some("secret"), &request),
        AdminVerdict::Pass
    ));
}

#[test]
fn cookies_are_found_by_their_name() {
    let headers = vec!["flag; a = 1;b=2=3".to_string(), "a=4".to_string()];
    assert_eq!(extract_cookie(&headers, "a").as_deref(), Some("1"));
    assert_eq!(extract_cookie(&headers, "b").as_deref(), Some("2=3"));
    assert_eq!(extract_cookie(&headers, "flag"), None);
    assert!(is_csrf_valid(&headers, None));
}

#[test]
fn methods_that_change_state_are_known() {
    for method in ["POST", "PUT", "PATCH", "DELETE"] {
        assert!(is_state_changing_method(method));
    }
    for method in ["GET", "HEAD", "OPTIONS", "post"] {
        assert!(!is_state_changing_method(method));
    }
    assert!(constant_time_equal(b"abc", b"abc"));
    assert!(!constant_time_equal(b"abc", b"abd"));
    assert!(!constant_time_equal(b"abc", b"ab"));
}
