use modelwire_server::config::{RelayKeyConfig, SecurityConfig};
use modelwire_server::error::{error_response_status, Error, ErrorDetail, ErrorKind, ErrorResponse};
use modelwire_server::server::{
    is_public_bind_address, method_not_allowed, mime_guess, not_found, validate_startup_security,
    webui_redirect,
};

fn default_security() -> SecurityConfig {
    SecurityConfig {
        downstream_auth: "relay_key".to_string(),
        relay_keys: Vec::new(),
        log_secret: None,
        managed_key_encryption_secret: None,
        public_deployment: false,
        allow_passthrough_keys: false,
        trusted_passthrough_header: None,
        trusted_passthrough_value: None,
        ip_requests_per_minute: None,
        admin_auth: "local_password".to_string(),
        admin_password: None,
    }
}

fn default_relay_key() -> RelayKeyConfig {
    RelayKeyConfig {
        key_hash: String::new(),
        enabled: false,
        allowed_models: Vec::new(),
        allowed_providers: Vec::new(),
        requests_per_minute: None,
        max_concurrency: None,
        archive_capture_mode: None,
    }
}

#[test]
fn startup_validation_rejects_public_bind_without_auth() {
    let security = SecurityConfig {
        public_deployment: true,
        downstream_auth: "none".to_string(),
        ..default_security()
    };
    let result = validate_startup_security("0.0.0.0:8787", &security);
    assert!(result.is_err());
}

#[test]
fn startup_validation_rejects_public_passthrough_when_disabled() {
    let security = SecurityConfig {
        public_deployment: true,
        downstream_auth: "passthrough".to_string(),
        allow_passthrough_keys: false,
        ..default_security()
    };
    let result = validate_startup_security("0.0.0.0:8787", &security);
    assert!(result.is_err());
}

#[test]
fn startup_validation_allows_public_relay_key() {
    let security = SecurityConfig {
        public_deployment: true,
        downstream_auth: "relay_key".to_string(),
        allow_passthrough_keys: false,
        relay_keys: vec![RelayKeyConfig {
            key_hash: "hash1".to_string(),
            enabled: true,
            ..default_relay_key()
        }],
        ..default_security()
    };
    let result = validate_startup_security("0.0.0.0:8787", &security);
    assert!(result.is_ok());
}

#[test]
fn startup_validation_rejects_public_relay_key_without_enabled_keys() {
    let security = SecurityConfig {
        public_deployment: true,
        downstream_auth: "relay_key".to_string(),
        allow_passthrough_keys: false,
        relay_keys: vec![],
        ..default_security()
    };
    let result = validate_startup_security("0.0.0.0:8787", &security);
    assert!(result.is_err());
}

#[test]
fn startup_validation_rejects_public_managed_until_implemented() {
    let security = SecurityConfig {
        public_deployment: true,
        downstream_auth: "managed".to_string(),
        ..default_security()
    };
    let result = validate_startup_security("0.0.0.0:8787", &security);
    assert!(result.is_err());
}

#[test]
fn startup_validation_allows_local_bind_without_public_flag() {
    let security = SecurityConfig {
        public_deployment: false,
        downstream_auth: "none".to_string(),
        ..default_security()
    };
    let result = validate_startup_security("127.0.0.1:8787", &security);
    assert!(result.is_ok());
}

#[test]
fn startup_refusals_say_what_is_wrong() {
    let mut security = default_security();
    security.downstream_auth = "  ".to_string();
    assert_eq!(
        validate_startup_security("[::]:80", &security).unwrap_err(),
        "Public bind/deployment requires downstream auth; auth mode 'none' is not allowed."
    );
    security.downstream_auth = " trusted_passthrough ".to_string();
    assert_eq!(
        validate_startup_security("0.0.0.0:80", &security).unwrap_err(),
        "Public bind/deployment rejects passthrough auth unless allow_passthrough_keys=true."
    );
    security.allow_passthrough_keys = true;
    assert!(validate_startup_security("0.0.0.0:80", &security).is_ok());
}

#[test]
fn open_addresses_are_recognized() {
    for bind in ["0.0.0.0:8787", " 0.0.0.0 ", "[::]:8787", ":::80"] {
        assert!(is_public_bind_address(bind), "{}", bind);
    }
    for bind in ["127.0.0.1:8787", "", "::", "[::1]:80", "10.0.0.1", "localhost:80"] {
        assert!(!is_public_bind_address(bind), "{}", bind);
    }
}

#[test]
fn files_are_served_with_their_type() {
    assert_eq!(mime_guess(Some("html")), "text/html; charset=utf-8");
    assert_eq!(mime_guess(Some("css")), "text/css");
    assert_eq!(mime_guess(Some("js")), "application/javascript");
    assert_eq!(mime_guess(Some("json")), "application/json");
    assert_eq!(mime_guess(Some("png")), "image/png");
    assert_eq!(mime_guess(Some("jpg")), "image/jpeg");
    assert_eq!(mime_guess(Some("jpeg")), "image/jpeg");
    assert_eq!(mime_guess(Some("svg")), "image/svg+xml");
    assert_eq!(mime_guess(Some("ico")), "image/x-icon");
    assert_eq!(mime_guess(Some("HTML")), "application/octet-stream");
    assert_eq!(mime_guess(None), "application/octet-stream");
}

#[test]
fn unknown_routes_are_reported_in_one_form() {
    let response = not_found();
    assert_eq!(response.error.code.as_deref(), Some("not_found"));
    assert_eq!(response.error.message, "Route not found");
    let response = method_not_allowed();
    assert_eq!(response.error.code.as_deref(), Some("method_not_allowed"));
    assert_eq!(response.error.error_type.as_deref(), Some("method_not_allowed"));
    assert_eq!(response.error.message, "Method not allowed for this route");
    assert_eq!(response.error.param, None);
}

#[test]
fn errors_have_the_status_of_their_kind() {
    let cases = [
        (ErrorKind::AuthFailed, "auth_failed", 401),
        (ErrorKind::RateLimited, "rate_limited", 429),
        (ErrorKind::ModelNotFound, "model_not_found", 404),
        (ErrorKind::RequestTooLarge, "request_too_large", 413),
        (ErrorKind::RequestInvalid, "request_invalid", 400),
        (ErrorKind::ContextLengthExceeded, "context_length_exceeded", 400),
        (ErrorKind::ProtocolNotSupported, "protocol_not_supported", 400),
        (ErrorKind::ToolMappingFailed, "tool_mapping_failed", 400),
        (ErrorKind::StateNotFound, "state_not_found", 404),
        (ErrorKind::StateNotContinuable, "state_not_continuable", 409),
        (ErrorKind::StateReplayFailed, "state_replay_failed", 500),
        (ErrorKind::UpstreamTimeout, "upstream_timeout", 504),
        (ErrorKind::UpstreamUnavailable, "upstream_unavailable", 502),
        (ErrorKind::InternalError, "internal_error", 500),
    ];
    for (kind, name, status) in cases {
        let response = Error::new(kind, "what happened").to_response();
        assert_eq!(kind.as_str(), name);
        assert_eq!(response.error.message, "what happened");
        assert_eq!(response.error.error_type.as_deref(), Some(name));
        assert_eq!(response.error.code.as_deref(), Some(name));
        assert_eq!(error_response_status(&response), status);
    }
}

#[test]
fn unnamed_errors_are_internal() {
    for error_type in [None, Some("teapot".to_string())] {
        let response = ErrorResponse {
            error: ErrorDetail {
                message: "m".to_string(),
                error_type,
                param: None,
                code: None,
            },
        };
        assert_eq!(error_response_status(&response), 500);
    }
}

#[test]
fn browsers_are_sent_to_the_admin_pages() {
    assert_eq!(webui_redirect("/"), Some((308, "/admin/login".to_string())));
    assert_eq!(webui_redirect("/admin"), Some((308, "/admin/login".to_string())));
    assert_eq!(webui_redirect("/settings"), Some((303, "/admin/settings".to_string())));
    assert_eq!(webui_redirect("/definitely-not-exist"), None);
    assert_eq!(webui_redirect("/v1"), None);
}
