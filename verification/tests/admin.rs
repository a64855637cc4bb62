use modelwire_server::admin::audit::{
    actor_secret, actor_token, admin_actor_hash, admin_audit_event, audit_failure_log,
    to_redacted_diff_json,
};
use modelwire_server::admin::import::{
    import_answer, import_unreadable, validate_import_config, validate_import_provider_urls,
    AppliedCounts,
};
use modelwire_server::admin::logs::{get_metrics, list_logs, log_limit};
use modelwire_server::admin::providers::{
    answer_provider_creation, answer_provider_update, create_provider, get_provider,
    list_providers, managed_key, patch_provider, update_provider, ProviderPatch,
};
use modelwire_server::admin::records::{
    provider_record, provider_record_to_config, route_record_to_config, serialize_provider_record,
    serialize_route_record, stored_managed_key, target_config_json, target_record,
    target_record_to_config,
};
use modelwire_server::admin::routes::{
    check_route_update, create_route, delete_route, get_route, list_routes, patch_route,
    route_not_persisted, target_not_deleted, target_not_persisted, targets_not_replaced,
    update_route, updated_targets_unread, RoutePatch,
};
use modelwire_server::admin::rows::delete_answer;
use modelwire_server::admin::targets::{
    answer_target_creation, answer_target_update, create_target, parse_target_payload,
    patch_target, update_target, TargetCreatePayloadAlias, TargetPatch, TargetPayload,
};
use modelwire_server::admin::validate::{
    is_unique_violation, validate_provider_candidate, validate_route_candidate, WriteFailure,
};
use modelwire_server::config::{ProviderConfig, RouteConfig, TargetConfig};
use modelwire_server::error::{Error, ErrorKind};
use modelwire_server::json::{parse_json, render_json, Json};
use modelwire_server::relay::target::UrlVerdict;
use modelwire_server::secrets::decrypt_managed_key;
use modelwire_server::store::{LogRecord, ProviderRecord, RouteRecord, TargetRecord};

fn json(text: &str) -> Json {
    parse_json(text).unwrap()
}

fn provider(auth_mode: &str, api_key: Option<&str>) -> ProviderConfig {
    ProviderConfig {
        id: "p1".to_string(),
        name: "Provider 1".to_string(),
        base_url: "https://api.example.com/v1".to_string(),
        auth_mode: auth_mode.to_string(),
        default_wire_api: "responses".to_string(),
        state_scope: Some("scope-1".to_string()),
        api_key: api_key.map(|key| key.to_string()),
        allow_private_ips: true,
        skip_ssrf_validation: false,
        config_json: Some(json(r#"{"a":1}"#)),
    }
}

fn target(provider: &str, priority: i32) -> TargetConfig {
    TargetConfig {
        provider: provider.to_string(),
        upstream_model: "um1".to_string(),
        wire_api: "responses".to_string(),
        priority,
        enabled: true,
        context_window_tokens: Some(128_000),
        max_output_tokens: None,
        auto_compact_recommended_tokens: Some(9),
        context_safety_margin_tokens: Some(2_000),
        token_estimator: Some("chars".to_string()),
        context_overflow_policy: "fallback".to_string(),
        config_json: None,
    }
}

fn route(targets: Vec<TargetConfig>) -> RouteConfig {
    RouteConfig {
        id: Some("r1".to_string()),
        downstream_model: "m1".to_string(),
        description: Some("d".to_string()),
        enabled: true,
        targets,
    }
}

fn stored_route(id: &str, model: &str) -> RouteRecord {
    RouteRecord {
        id: id.to_string(),
        downstream_model: model.to_string(),
        description: None,
        enabled: 1,
    }
}

fn blocked() -> UrlVerdict {
    UrlVerdict::Blocked { reason: "private address".to_string() }
}

fn no_patch() -> ProviderPatch {
    ProviderPatch {
        id: None,
        name: None,
        base_url: None,
        auth_mode: None,
        default_wire_api: None,
        state_scope: None,
        api_key: None,
        allow_private_ips: None,
        skip_ssrf_validation: None,
        config_json: None,
    }
}

fn no_target_patch() -> TargetPatch {
    TargetPatch {
        provider: None,
        provider_id: None,
        upstream_model: None,
        wire_api: None,
        priority: None,
        enabled: None,
        context_window_tokens: None,
        max_output_tokens: None,
        auto_compact_recommended_tokens: None,
        context_safety_margin_tokens: None,
        token_estimator: None,
        context_overflow_policy: None,
        config_json: None,
    }
}

fn no_route_patch() -> RoutePatch {
    RoutePatch { id: None, downstream_model: None, description: None, enabled: None, targets: None }
}

fn failure(message: Option<&str>, unique: bool) -> WriteFailure {
    WriteFailure {
        detail: "detail".to_string(),
        database_message: message.map(|text| text.to_string()),
        unique_violation: unique,
    }
}

#[test]
fn providers_are_stored_and_read_back() {
    let record = provider_record(&provider("managed", Some("k")), &Some("mwenc:v1:x".to_string()));
    assert_eq!(
        record.config_json,
        r#"{"allow_private_ips":true,"api_key_set":true,"config_json":{"a":1},"managed_api_key":"mwenc:v1:x","skip_ssrf_validation":false}"#
    );
    let config = provider_record_to_config(&record);
    assert_eq!(config.id, "p1");
    assert_eq!(config.api_key, None);
    assert!(config.allow_private_ips && !config.skip_ssrf_validation);
    assert_eq!(config.config_json.as_ref().map(render_json).as_deref(), Some(r#"{"a":1}"#));
    assert_eq!(stored_managed_key(&record).as_deref(), Some("mwenc:v1:x"));
    assert_eq!(
        render_json(&serialize_provider_record(&record)),
        r#"{"api_key_set":true,"auth_mode":"managed","base_url":"https://api.example.com/v1","default_wire_api":"responses","id":"p1","name":"Provider 1","state_scope":"scope-1"}"#
    );
}

#[test]
fn managed_keys_are_sealed_before_they_are_stored() {
    let record =
        create_provider(&Ok(provider("managed", Some("sk-1"))), false, &UrlVerdict::Safe, Some("secret"))
            .unwrap();
    assert!(!record.config_json.contains("sk-1"));
    let sealed = stored_managed_key(&record).unwrap();
    assert_eq!(decrypt_managed_key(&sealed, "secret").unwrap(), "sk-1");
    let answer = answer_provider_creation(&record, &Ok(())).unwrap();
    assert_eq!(answer.get_str("id"), Some("p1"));
    assert_eq!(answer.get_str("status"), Some("created"));
    assert_eq!(answer.get("provider").unwrap().get_bool("api_key_set"), Some(true));
    let error = answer_provider_creation(&record, &Err("full".to_string())).unwrap_err();
    assert_eq!(error.message, "Failed to persist provider: full");
    let record = create_provider(
        &Ok(provider("pass_authorization", Some("sk-1"))),
        false,
        &UrlVerdict::Safe,
        None,
    )
    .unwrap();
    assert_eq!(stored_managed_key(&record), None);
    assert_eq!(
        managed_key("managed", &None, None, Some("kept".to_string())).unwrap().as_deref(),
        Some("kept")
    );
}

#[test]
fn providers_that_cannot_be_created_are_reported() {
    let create = |payload: Result<ProviderConfig, String>, exists: bool, verdict: UrlVerdict| {
        create_provider(&payload, exists, &verdict, None).unwrap_err()
    };
    let error = create(Err("missing field".to_string()), false, UrlVerdict::Safe);
    assert_eq!(error.kind, ErrorKind::RequestInvalid);
    assert_eq!(error.message, "Invalid provider payload: missing field");
    let error = create(Ok(provider("managed", None)), true, UrlVerdict::Safe);
    assert_eq!(error.message, "Provider 'p1' already exists");
    let error = create(Ok(provider("managed", None)), false, blocked());
    assert_eq!(error.message, "Provider 'p1' base_url rejected by SSRF policy: private address");
    let error = create(Ok(provider("managed", Some("k"))), false, UrlVerdict::Safe);
    assert_eq!(error.kind, ErrorKind::InternalError);
    assert_eq!(
        error.message,
        "managed_key_encryption_secret is required for managed provider keys"
    );
    for (field, message) in [
        ("id", "Provider id must not be empty"),
        ("name", "Provider name must not be empty"),
        ("base_url", "Provider base_url must not be empty"),
    ] {
        let mut candidate = provider("managed", None);
        match field {
            "id" => candidate.id = " ".to_string(),
            "name" => candidate.name = String::new(),
            _ => candidate.base_url = "\t".to_string(),
        }
        let error = validate_provider_candidate(&candidate, &UrlVerdict::Safe).unwrap_err();
        assert_eq!(error.message, message);
    }
    let mut trusted = provider("managed", None);
    trusted.skip_ssrf_validation = true;
    assert!(validate_provider_candidate(&trusted, &blocked()).is_ok());
}

#[test]
fn updates_keep_the_stored_key() {
    let record = provider_record(&provider("managed", Some("k")), &Some("mwenc:v1:x".to_string()));
    let patch = ProviderPatch { name: Some("Renamed".to_string()), ..no_patch() };
    let change = patch_provider("p1", Ok(Some(record)), Ok(patch)).unwrap();
    assert_eq!(change.candidate.name, "Renamed");
    assert_eq!(change.candidate.base_url, "https://api.example.com/v1");
    let updated = update_provider(&change, &UrlVerdict::Safe, None).unwrap();
    assert_eq!(updated.name, "Renamed");
    assert_eq!(stored_managed_key(&updated).as_deref(), Some("mwenc:v1:x"));
    let answer = answer_provider_update("p1", &updated, &Ok(1)).unwrap();
    assert_eq!(answer.get_str("status"), Some("updated"));
    let error = answer_provider_update("p1", &updated, &Ok(0)).unwrap_err();
    assert_eq!(error.kind, ErrorKind::StateNotFound);
    assert_eq!(error.message, "Provider 'p1' not found");
    let error = answer_provider_update("p1", &updated, &Err("io".to_string())).unwrap_err();
    assert_eq!(error.message, "Failed to update provider 'p1': io");
}

#[test]
fn updates_that_do_not_fit_are_refused() {
    let record = || provider_record(&provider("managed", None), &None);
    let error = patch_provider("p1", Ok(None), Ok(no_patch())).unwrap_err();
    assert_eq!(error.message, "Provider 'p1' not found");
    let error = patch_provider("p1", Err("io".to_string()), Ok(no_patch())).unwrap_err();
    assert_eq!(error.message, "Failed to read provider 'p1': io");
    let error = patch_provider("p1", Ok(Some(record())), Err("bad".to_string())).unwrap_err();
    assert_eq!(error.message, "Invalid provider update payload: bad");
    let other = ProviderPatch { id: Some("p2".to_string()), ..no_patch() };
    let error = patch_provider("p1", Ok(Some(record())), Ok(other)).unwrap_err();
    assert_eq!(error.message, "Provider id in payload must match path id");
    let change = patch_provider("p1", Ok(Some(record())), Ok(no_patch())).unwrap();
    assert!(update_provider(&change, &blocked(), None).is_err());
}

#[test]
fn stored_rows_are_shown() {
    let record = provider_record(&provider("managed", None), &None);
    let shown = get_provider("p1", Ok(Some(record))).unwrap();
    assert_eq!(shown.get_bool("api_key_set"), Some(false));
    assert!(get_provider("p1", Ok(None)).is_err());
    let rows: Result<Vec<ProviderRecord>, String> =
        Ok(vec![provider_record(&provider("managed", None), &None)]);
    assert_eq!(list_providers(&rows).len(), 1);
    assert!(list_providers(&Err("io".to_string())).is_empty());
    assert_eq!(
        render_json(&delete_answer("Provider", "provider", "p1", &Ok(1)).unwrap()),
        r#"{"id":"p1","status":"deleted"}"#
    );
    let error = delete_answer("Target", "target", "t", &Ok(0)).unwrap_err();
    assert_eq!(error.message, "Target 't' not found");
    let error = delete_answer("Target", "target", "t", &Err("io".to_string())).unwrap_err();
    assert_eq!(error.message, "Failed to delete target 't': io");
}

#[test]
fn targets_are_stored_and_read_back() {
    let record = target_record("r1", &target("p1", 10));
    assert_eq!(record.id, "r1:p1:10");
    assert_eq!(record.enabled, 1);
    assert_eq!(
        record.config_json,
        r#"{"auto_compact_recommended_tokens":9,"config_json":null,"context_overflow_policy":"fallback","context_safety_margin_tokens":2000,"context_window_tokens":128000,"max_output_tokens":null,"token_estimator":"chars"}"#
    );
    assert_eq!(target_config_json(&target("p1", 10)), record.config_json);
    let config = target_record_to_config(&record);
    assert_eq!(config.provider, "p1");
    assert_eq!(config.context_window_tokens, Some(128_000));
    assert_eq!(config.max_output_tokens, None);
    assert_eq!(config.token_estimator.as_deref(), Some("chars"));
    assert_eq!(config.context_overflow_policy, "fallback");
    let broken = TargetRecord { config_json: "{".to_string(), ..record };
    assert_eq!(target_record_to_config(&broken).context_overflow_policy, "reject");
}

#[test]
fn targets_are_created() {
    let alias = TargetCreatePayloadAlias {
        provider_id: "p1".to_string(),
        upstream_model: "um1".to_string(),
        wire_api: None,
        priority: None,
        enabled: None,
        context_window_tokens: None,
        max_output_tokens: None,
        auto_compact_recommended_tokens: None,
        context_safety_margin_tokens: None,
        token_estimator: None,
        context_overflow_policy: None,
        config_json: None,
    };
    let parsed = parse_target_payload(TargetPayload::Alias(alias)).unwrap();
    assert_eq!((parsed.wire_api.as_str(), parsed.priority, parsed.enabled), ("auto", 10, true));
    assert_eq!(parsed.context_overflow_policy, "reject");
    let error = parse_target_payload(TargetPayload::Neither).unwrap_err();
    assert_eq!(error.message, "Invalid target payload");
    let write = create_target(
        "r1",
        Ok(Some(stored_route("r1", "m1"))),
        TargetPayload::Target(target("p1", 3)),
        &Ok(true),
    )
    .unwrap();
    assert_eq!(write.record.id, "r1:p1:3");
    assert_eq!(write.shown.get_str("provider_id"), Some("p1"));
    let answer = answer_target_creation(write, &Ok(())).unwrap();
    assert_eq!(answer.get_str("id"), Some("r1:p1:3"));
    assert_eq!(answer.get_str("status"), Some("created"));
}

#[test]
fn targets_that_do_not_fit_are_refused() {
    let create = |target: TargetConfig, lookup: Result<bool, String>| {
        create_target("r1", Ok(Some(stored_route("r1", "m1"))), TargetPayload::Target(target), &lookup)
            .unwrap_err()
            .message
    };
    assert_eq!(create(target(" ", 1), Ok(true)), "Target provider must not be empty");
    let mut nameless = target("p1", 1);
    nameless.upstream_model = String::new();
    assert_eq!(create(nameless, Ok(true)), "Target upstream_model must not be empty");
    assert_eq!(create(target("p9", 1), Ok(false)), "Route 'm1' references unknown provider 'p9'");
    assert_eq!(
        create(target("p1", 1), Err("io".to_string())),
        "Failed to validate provider reference: io"
    );
    let mut odd = target("p1", 1);
    odd.wire_api = "soap".to_string();
    assert_eq!(create(odd, Ok(true)), "Target 'r1:p1:1' has invalid wire_api 'soap'");
    let mut lax = target("p1", 1);
    lax.context_overflow_policy = "truncate".to_string();
    assert_eq!(
        create(lax, Ok(true)),
        "Target 'r1:p1:1' has invalid context_overflow_policy 'truncate'"
    );
    let error = create_target("r1", Ok(None), TargetPayload::Neither, &Ok(true)).unwrap_err();
    assert_eq!(error.message, "Route 'r1' not found");
}

#[test]
fn targets_are_changed() {
    let row = || target_record("r1", &target("p1", 3));
    let found = || Ok(Some(stored_route("r1", "m1")));
    let patch = TargetPatch {
        provider: Some("p2".to_string()),
        provider_id: Some("p3".to_string()),
        priority: Some(7),
        max_output_tokens: Some(64),
        ..no_target_patch()
    };
    let change = patch_target("r1:p1:3", Ok(Some(row())), found(), Ok(patch)).unwrap();
    assert_eq!(change.candidate.provider, "p3");
    let write = update_target("r1:p1:3", &change, &Ok(true)).unwrap();
    assert_eq!(write.record.id, "r1:p1:3");
    assert_eq!(write.record.provider_id, "p3");
    assert_eq!(write.shown.get_str("id"), Some("r1:p3:7"));
    assert_eq!(write.shown.get_u64("max_output_tokens"), Some(64));
    let unique = failure(Some("constraint"), true);
    let error = answer_target_update("t", write.shown, &Err(unique)).unwrap_err();
    assert_eq!(error.kind, ErrorKind::RequestInvalid);
    assert_eq!(error.message, "Failed to update target 't': detail");
    let error = patch_target("t", Ok(None), found(), Ok(no_target_patch())).unwrap_err();
    assert_eq!(error.message, "Target 't' not found");
    let error = patch_target("t", Ok(Some(row())), Ok(None), Ok(no_target_patch())).unwrap_err();
    assert_eq!(error.message, "Route 'r1' not found for target 'r1:p1:3'");
    let error = patch_target("t", Ok(Some(row())), Err("io".to_string()), Ok(no_target_patch()));
    assert_eq!(error.unwrap_err().message, "Failed to read route 'r1' for target 'r1:p1:3': io");
    let error = patch_target("t", Ok(Some(row())), found(), Err("bad".to_string())).unwrap_err();
    assert_eq!(error.message, "Invalid target update payload: bad");
    let same = patch_target("t", Ok(Some(row())), found(), Ok(no_target_patch())).unwrap();
    assert_eq!(target_config_json(&same.candidate), row().config_json);
}

#[test]
fn routes_are_created_with_their_targets() {
    let plan = create_route(
        &Ok(route(vec![target("p1", 1), target("p1", 2)])),
        &Ok(vec![stored_route("other", "m2")]),
        &vec![Ok(true), Ok(true)],
    )
    .unwrap();
    assert_eq!(plan.route.id, "r1");
    assert_eq!(plan.route.enabled, 1);
    assert_eq!(plan.targets[1].id, "r1:p1:2");
    let error = route_not_persisted("r1", &failure(Some("UNIQUE constraint failed"), false));
    assert_eq!(error.kind, ErrorKind::RequestInvalid);
    assert_eq!(error.message, "Failed to persist route 'r1': detail");
    let error = target_not_persisted("r1", "r1:p1:2", "io");
    assert_eq!(error.message, "Failed to persist target 'r1:p1:2' for route 'r1': io");
    let error = create_route(&Err("bad".to_string()), &Ok(Vec::new()), &Vec::new()).unwrap_err();
    assert_eq!(error.message, "Invalid route payload: bad");
}

#[test]
fn routes_that_do_not_fit_are_refused() {
    let check = |route: RouteConfig, existing: Vec<RouteRecord>, own: Option<&str>| {
        let lookups = vec![Ok(true), Ok(true)];
        validate_route_candidate(&route, own, &Ok(existing), &lookups)
    };
    let message = |result: Result<(), Error>| result.unwrap_err().message;
    let mut nameless = route(vec![target("p1", 1)]);
    nameless.downstream_model = " ".to_string();
    assert_eq!(
        message(check(nameless, Vec::new(), None)),
        "Route downstream_model must not be empty"
    );
    assert_eq!(
        message(check(route(Vec::new()), Vec::new(), None)),
        "Route 'm1' must include at least one target"
    );
    let one = || route(vec![target("p1", 1)]);
    assert_eq!(
        message(check(one(), vec![stored_route("r1", "m9")], None)),
        "Route 'r1' already exists"
    );
    assert_eq!(
        message(check(one(), vec![stored_route("r2", "m1")], None)),
        "Route downstream model 'm1' already exists"
    );
    assert!(check(one(), vec![stored_route("r1", "m1")], Some("r1")).is_ok());
    assert_eq!(
        message(check(route(vec![target("p1", 1), target("p1", 1)]), Vec::new(), None)),
        "Route 'm1' contains duplicate target id 'r1:p1:1'"
    );
    let error = validate_route_candidate(&one(), None, &Err("io".to_string()), &vec![Ok(true)]);
    assert_eq!(message(error), "Failed to validate route candidate: io");
}

#[test]
fn routes_are_changed() {
    let rows = || vec![target_record("r1", &target("p1", 1))];
    let patch = RoutePatch { enabled: Some(false), ..no_route_patch() };
    let change =
        patch_route("r1", Ok(Some(stored_route("r1", "m1"))), Ok(rows()), Ok(patch)).unwrap();
    assert!(!change.replace_targets);
    let plan =
        update_route("r1", &change, &Ok(vec![stored_route("r1", "m1")]), &vec![Ok(true)]).unwrap();
    assert_eq!(plan.route.enabled, 0);
    assert!(plan.removed.is_empty() && plan.added.is_empty());
    let patch = RoutePatch { targets: Some(vec![target("p2", 5)]), ..no_route_patch() };
    let change =
        patch_route("r1", Ok(Some(stored_route("r1", "m1"))), Ok(rows()), Ok(patch)).unwrap();
    let plan = update_route("r1", &change, &Ok(Vec::new()), &vec![Ok(true)]).unwrap();
    assert_eq!(plan.removed, vec!["r1:p1:1".to_string()]);
    assert_eq!(plan.added[0].id, "r1:p2:5");
    let patch = RoutePatch { id: Some("r2".to_string()), ..no_route_patch() };
    let error =
        patch_route("r1", Ok(Some(stored_route("r1", "m1"))), Ok(rows()), Ok(patch)).unwrap_err();
    assert_eq!(error.message, "Route id in payload must match path id");
    let error = patch_route(
        "r1", Ok(Some(stored_route("r1", "m1"))), Err("io".to_string()), Ok(no_route_patch()),
    );
    assert_eq!(error.unwrap_err().message, "Failed to read route targets for 'r1': io");
    assert!(check_route_update("r1", &Ok(1)).is_ok());
    assert_eq!(check_route_update("r1", &Ok(0)).unwrap_err().message, "Route 'r1' not found");
    let error = check_route_update("r1", &Err(failure(Some("disk full"), false))).unwrap_err();
    assert_eq!(error.kind, ErrorKind::InternalError);
    assert_eq!(error.message, "Failed to update route 'r1': detail");
    assert_eq!(
        targets_not_replaced("m1", "io").message,
        "Failed to replace targets for route 'm1': io"
    );
    assert_eq!(
        updated_targets_unread("io").message,
        "Failed to read updated route targets for audit: io"
    );
}

#[test]
fn routes_are_shown_and_deleted() {
    let rows = vec![target_record("r1", &target("p1", 1))];
    let record = stored_route("r1", "m1");
    let shown = serialize_route_record(&record, &rows);
    assert_eq!(shown.get_str("downstream_model"), Some("m1"));
    assert_eq!(shown.get("targets").unwrap().as_array().unwrap().len(), 1);
    let config = route_record_to_config(&record, &rows);
    assert_eq!(config.id.as_deref(), Some("r1"));
    assert_eq!(config.targets[0].provider, "p1");
    assert!(get_route("r1", Ok(Some(stored_route("r1", "m1"))), Ok(Vec::new())).is_ok());
    assert_eq!(
        get_route("r1", Ok(None), Ok(Vec::new())).unwrap_err().message,
        "Route 'r1' not found"
    );
    let listed = list_routes(&vec![
        (stored_route("r1", "m1"), Ok(vec![target_record("r1", &target("p1", 1))])),
        (stored_route("r2", "m2"), Err("io".to_string())),
    ]);
    assert_eq!(
        render_json(&listed[0]),
        r#"{"description":null,"downstream_model":"m1","enabled":true,"id":"r1","target_count":1}"#
    );
    assert_eq!(listed[1].get_u64("target_count"), Some(0));
    assert_eq!(delete_route("r1", &Ok(rows)).unwrap(), vec!["r1:p1:1".to_string()]);
    assert_eq!(
        delete_route("r1", &Err("io".to_string())).unwrap_err().message,
        "Failed to inspect route targets for 'r1': io"
    );
    assert_eq!(
        target_not_deleted("r1", "t1", "io").message,
        "Failed to delete target 't1' for route 'r1': io"
    );
}

#[test]
fn unique_violations_are_recognized() {
    assert!(is_unique_violation(&failure(Some("x"), true)));
    assert!(is_unique_violation(&failure(Some("ERROR: Duplicate KEY value"), false)));
    assert!(is_unique_violation(&failure(Some("row already exists"), false)));
    assert!(!is_unique_violation(&failure(Some("timeout"), false)));
    assert!(!is_unique_violation(&failure(None, false)));
}

#[test]
fn imports_are_checked() {
    let providers = vec![provider("managed", None)];
    assert!(validate_import_config(&providers, &vec![route(vec![target("p1", 1)])]).is_ok());
    let twice = vec![provider("managed", None), provider("managed", None)];
    let error = validate_import_config(&twice, &Vec::new()).unwrap_err();
    assert_eq!(error.kind, ErrorKind::RequestInvalid);
    assert_eq!(error.message, "Invalid config import payload: duplicate provider id 'p1'");
    let error = validate_import_config(
        &providers,
        &vec![route(vec![target("p1", 1)]), route(Vec::new())],
    )
    .unwrap_err();
    assert_eq!(error.message, "Invalid config import payload: duplicate downstream model 'm1'");
    let error = validate_import_config(&providers, &vec![route(vec![target("p9", 1)])]).unwrap_err();
    assert_eq!(
        error.message,
        "Invalid config import payload: route 'm1' references unknown provider 'p9'"
    );
    assert_eq!(import_unreadable("x").message, "Invalid config import payload: x");
    let error = validate_import_provider_urls(&providers, &vec![blocked()]).unwrap_err();
    assert_eq!(error.message, "Provider 'p1' base_url rejected by SSRF policy: private address");
    assert!(validate_import_provider_urls(&providers, &vec![UrlVerdict::Safe]).is_ok());
    let applied = Ok(AppliedCounts { providers: 1, routes: 2, targets: 3 });
    assert_eq!(
        render_json(&import_answer(&providers, &vec![route(vec![target("p1", 1)])], &applied).unwrap()),
        r#"{"applied":{"providers":1,"routes":2,"targets":3},"providers_count":1,"routes_count":1,"status":"imported","targets_count":1}"#
    );
    let error = import_answer(&providers, &Vec::new(), &Err("io".to_string())).unwrap_err();
    assert_eq!(error.message, "Failed to apply imported config: io");
}

#[test]
fn changes_are_recorded() {
    assert_eq!(actor_token(Some("Bearer secret")), "secret");
    assert_eq!(actor_token(Some("Basic x")), "admin");
    assert_eq!(actor_token(None), "admin");
    assert_eq!(actor_secret(&None), "modelwire-admin-audit-default-secret");
    assert_eq!(actor_secret(&Some("s".to_string())), "s");
    assert_eq!(admin_actor_hash("d"), "admin:d");
    let diff = to_redacted_diff_json(Json::Null, json(r#"{"id":"p1"}"#));
    assert_eq!(diff, r#"{"after":{"id":"p1"},"before":null}"#);
    let event = admin_audit_event("req", "admin:d", "provider_create", "provider", "p1", &diff);
    assert!(event.id.starts_with("audit_"));
    assert_eq!(event.id.len(), 6 + 36);
    assert_eq!(event.action, "provider_create");
    assert_eq!(event.resource_type, "provider");
    assert_eq!(event.resource_id, "p1");
    assert_eq!(event.actor_key_hash, "admin:d");
    assert_eq!(event.diff_json, diff);
    let log = audit_failure_log("req", "admin:d");
    assert_eq!(log.status_code, Some(500));
    assert_eq!(log.error_kind.as_deref(), Some("admin_audit_write_failed"));
    assert_eq!(log.downstream_key_hash.as_deref(), Some("admin:d"));
    assert_eq!(log.route_id, None);
}

#[test]
fn logs_are_listed() {
    assert_eq!(log_limit(None), 100);
    assert_eq!(log_limit(Some("7")), 7);
    assert_eq!(log_limit(Some("-3")), -3);
    assert_eq!(log_limit(Some("+12")), 12);
    for text in ["", "+", "7 ", "2147483648", "seven"] {
        assert_eq!(log_limit(Some(text)), 100);
    }
    assert_eq!(log_limit(Some("-2147483648")), i32::MIN);
    let row = LogRecord {
        id: "log_1".to_string(),
        request_id: "req".to_string(),
        downstream_key_hash: None,
        downstream_model: Some("m1".to_string()),
        route_id: None,
        target_id: None,
        provider_id: None,
        upstream_model: None,
        wire_api: None,
        status_code: Some(200),
        error_kind: None,
        latency_ms: Some(-1),
        input_tokens: None,
        output_tokens: None,
        reasoning_tokens: None,
        created_at: "now".to_string(),
    };
    assert_eq!(
        render_json(&list_logs(&vec![row], None, 5)),
        r#"{"limit":5,"logs":[{"created_at":"now","downstream_key_hash":null,"downstream_model":"m1","error_kind":null,"id":"log_1","input_tokens":null,"latency_ms":-1,"output_tokens":null,"provider_id":null,"reasoning_tokens":null,"request_id":"req","route_id":null,"status_code":200,"target_id":null,"upstream_model":null,"wire_api":null}],"total":1}"#
    );
    assert_eq!(list_logs(&Vec::new(), Some(9), 5).get_u64("total"), Some(9));
    assert_eq!(
        render_json(&get_metrics(1, 2, 3)),
        r#"{"probe_cache_size":3,"providers_count":2,"routes_count":1}"#
    );
}

#[test]
fn keys_read_back_beside_floats() {
    let mut provider = provider("managed", Some("k"));
    let settings = r#"{"a":0.1,"b":[1.7976931348623157e308,-5e-324,-7],"c":{"d":1e16}}"#;
    provider.config_json = Some(json(settings));
    let record = provider_record(&provider, &Some("mwenc:v1:x".to_string()));
    assert_eq!(stored_managed_key(&record).as_deref(), Some("mwenc:v1:x"));
    assert_eq!(serialize_provider_record(&record).get_bool("api_key_set"), Some(true));
    let back = provider_record_to_config(&record);
    assert!(back.allow_private_ips && !back.skip_ssrf_validation);
    assert!(back.config_json.unwrap().get("b").is_some());
    let mut target = target("p1", 3);
    target.config_json = Some(json(settings));
    target.max_output_tokens = Some(9);
    let back = target_record_to_config(&target_record("r1", &target));
    assert_eq!(back.max_output_tokens, Some(9));
    assert_eq!(back.config_json.unwrap().get("c").is_some(), true);
}
