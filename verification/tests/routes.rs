use modelwire_server::config::{RouteConfig, TargetConfig};
use modelwire_server::error::ErrorKind;
use modelwire_server::json::{parse_json, Json};
use modelwire_server::middleware::auth::DownstreamAuthContext;
use modelwire_server::routes::health::{healthz, readyz};
use modelwire_server::routes::models::{list_models, ListedRoute};
use modelwire_server::routes::responses::{
    body_read_error_to_response, deny_if_provider_scope_not_satisfiable, deny_if_route_not_allowed,
};
use modelwire_server::store::{RouteRecord, TargetRecord};

fn json(text: &str) -> Json {
    parse_json(text).unwrap()
}

fn stored_route(model: &str, enabled: i64) -> RouteRecord {
    RouteRecord {
        id: "route-main".to_string(),
        downstream_model: model.to_string(),
        description: None,
        enabled,
    }
}

fn stored_target(config_json: &str, enabled: i64) -> TargetRecord {
    TargetRecord {
        id: "t".to_string(),
        route_id: "route-main".to_string(),
        provider_id: "provider-a".to_string(),
        upstream_model: "gpt-upstream-a".to_string(),
        wire_api: "responses".to_string(),
        priority: 10,
        enabled,
        config_json: config_json.to_string(),
    }
}

#[test]
fn models_tell_the_smallest_limits() {
    let routes = vec![
        ListedRoute {
            route: stored_route("codex-main", 1),
            targets: vec![
                stored_target(r#"{"context_window_tokens":200000,"max_output_tokens":16384}"#, 1),
                stored_target(r#"{"context_window_tokens":120000,"max_output_tokens":8192}"#, 1),
                stored_target(r#"{"context_window_tokens":5}"#, 0),
                stored_target("broken", 1),
            ],
        },
        ListedRoute { route: stored_route("off", 0), targets: Vec::new() },
        ListedRoute { route: stored_route("bare", 2), targets: Vec::new() },
    ];
    let listed = list_models(&routes);
    assert_eq!(listed.object, "list");
    assert_eq!(listed.data.len(), 2);
    let model = &listed.data[0];
    assert_eq!(model.id, "codex-main");
    assert_eq!(model.object, "model");
    assert_eq!(model.created, 1700000000);
    assert_eq!(model.owned_by, "modelwire");
    assert_eq!(model.context_window, Some(120_000));
    assert_eq!(model.max_output_tokens, Some(8_192));
    assert_eq!(listed.data[1].id, "bare");
    assert_eq!(listed.data[1].context_window, None);
}

#[test]
fn health_is_told() {
    let health = healthz("0.1.0");
    assert_eq!(health.status, "ok");
    assert_eq!(health.version, "0.1.0");
    assert_eq!(readyz(true, "0.1.0").unwrap().status, "ok");
    assert_eq!(readyz(false, "0.1.0").unwrap_err(), 503);
}

fn context(models: Option<&str>, providers: Option<&str>) -> DownstreamAuthContext {
    DownstreamAuthContext {
        key_hash: None,
        allowed_models: models.map(|model| vec![model.to_string()]),
        allowed_providers: providers.map(|provider| vec![provider.to_string()]),
        archive_capture_mode: None,
        limiter_slot_reserved: false,
    }
}

#[test]
fn keys_reach_only_their_models() {
    let raw = json(r#"{"model": "codex-main"}"#);
    assert!(deny_if_route_not_allowed(&raw, None).is_none());
    assert!(deny_if_route_not_allowed(&raw, Some(&context(None, None))).is_none());
    assert!(deny_if_route_not_allowed(&raw, Some(&context(Some("codex-main"), None))).is_none());
    let error = deny_if_route_not_allowed(&raw, Some(&context(Some("other"), None))).unwrap();
    assert_eq!(error.kind, ErrorKind::AuthFailed);
    assert_eq!(error.message, "Relay key is not allowed to access model 'codex-main'");
    assert!(deny_if_route_not_allowed(&json("{}"), Some(&context(Some("other"), None))).is_none());
}

#[test]
fn keys_reach_only_their_providers() {
    let raw = json(r#"{"model": "codex-main"}"#);
    let route = RouteConfig {
        id: None,
        downstream_model: "codex-main".to_string(),
        description: None,
        enabled: true,
        targets: vec![TargetConfig {
            provider: "provider-a".to_string(),
            upstream_model: "u".to_string(),
            wire_api: "auto".to_string(),
            priority: 1,
            enabled: true,
            context_window_tokens: None,
            max_output_tokens: None,
            auto_compact_recommended_tokens: None,
            context_safety_margin_tokens: None,
            token_estimator: None,
            context_overflow_policy: "reject".to_string(),
            config_json: None,
        }],
    };
    let deny = |providers: Option<&str>, route: Option<&RouteConfig>| {
        deny_if_provider_scope_not_satisfiable(&raw, Some(&context(None, providers)), route)
    };
    assert!(deny(None, Some(&route)).is_none());
    assert!(deny(Some("provider-a"), Some(&route)).is_none());
    assert!(deny(Some("provider-b"), None).is_none());
    let error = deny(Some("provider-b"), Some(&route)).unwrap();
    assert_eq!(
        error.message,
        "Relay key is not allowed to access any provider for model 'codex-main'"
    );
}

#[test]
fn bodies_that_cannot_be_read_are_reported() {
    let error = body_read_error_to_response(true);
    assert_eq!(error.kind, ErrorKind::RequestTooLarge);
    assert_eq!(error.message, "Request body exceeds configured max body size");
    let error = body_read_error_to_response(false);
    assert_eq!(error.kind, ErrorKind::RequestInvalid);
    assert_eq!(error.message, "Failed to read request body");
}
