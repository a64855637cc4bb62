use modelwire_server::canonical::WireApi;
use modelwire_server::config::{ProviderConfig, RouteConfig, TargetConfig};
use modelwire_server::error::{Error, ErrorKind};
use modelwire_server::json::{parse_json, Json};
use modelwire_server::relay::context::{
    context_guard_check, estimate_request_tokens, should_fallback_on_context_guard,
    should_skip_target_for_tool_support, ResolvedTargetProtocol,
};
use modelwire_server::relay::continuation::{load_continuation_context, ContinuationContext};
use modelwire_server::relay::request::parse_canonical_request;
use modelwire_server::relay::selection::{
    check_tool_support, prepare_target, Preparation, TargetOutcome, TargetWalk, WalkStep,
};
use modelwire_server::relay::target::{
    resolve_upstream_key, resolve_upstream_key_checked, snapshot_route, strip_bearer,
    target_effective_id, RouteSnapshot, TargetCandidate, TargetSnapshot, UrlVerdict,
};
use modelwire_server::store::{HandleRecord, ItemRecord, ResponseRecord};

fn json(text: &str) -> Json {
    parse_json(text).unwrap()
}

fn provider(id: &str, api_key: Option<&str>) -> ProviderConfig {
    ProviderConfig {
        id: id.to_string(),
        name: format!("Provider {}", id),
        base_url: "https://api.example.com/v1".to_string(),
        auth_mode: "managed".to_string(),
        default_wire_api: "responses".to_string(),
        state_scope: Some("scope-a".to_string()),
        api_key: api_key.map(|key| key.to_string()),
        allow_private_ips: false,
        skip_ssrf_validation: true,
        config_json: None,
    }
}

fn target(provider: &str, wire_api: &str, priority: i32, window: u64, policy: &str) -> TargetConfig {
    TargetConfig {
        provider: provider.to_string(),
        upstream_model: "gpt-upstream".to_string(),
        wire_api: wire_api.to_string(),
        priority,
        enabled: true,
        context_window_tokens: Some(window),
        max_output_tokens: None,
        auto_compact_recommended_tokens: None,
        context_safety_margin_tokens: Some(2_000),
        token_estimator: None,
        context_overflow_policy: policy.to_string(),
        config_json: None,
    }
}

fn candidate(config: TargetConfig, provider: Option<ProviderConfig>) -> TargetCandidate {
    TargetCandidate { target: config, provider, url_verdict: UrlVerdict::Safe }
}

fn route() -> RouteConfig {
    RouteConfig {
        id: Some("route-a".to_string()),
        downstream_model: "codex-main".to_string(),
        description: None,
        enabled: true,
        targets: Vec::new(),
    }
}

fn single_target(wire_api: &str, api_key: Option<&str>) -> RouteSnapshot {
    let candidates = vec![candidate(
        target("provider-a", wire_api, 10, 200_000, "reject"),
        Some(provider("provider-a", api_key)),
    )];
    snapshot_route(Some(&route()), "codex-main", &candidates, None).unwrap()
}

fn two_targets(wire_api: &str) -> RouteSnapshot {
    let candidates = vec![
        candidate(
            target("provider-a", wire_api, 10, 100_000, "fallback"),
            Some(provider("provider-a", Some("k1"))),
        ),
        candidate(
            target("provider-b", wire_api, 20, 300_000, "fallback"),
            Some(provider("provider-b", Some("k1"))),
        ),
    ];
    snapshot_route(Some(&route()), "codex-main", &candidates, None).unwrap()
}

fn previous_response() -> ResponseRecord {
    ResponseRecord {
        id: "resp_mw_prev".to_string(),
        downstream_model: "codex-main".to_string(),
        provider_id: Some("provider-a".to_string()),
        upstream_model: Some("gpt-upstream".to_string()),
        wire_api: Some("responses".to_string()),
        state_scope: Some("scope-a".to_string()),
        status: "completed".to_string(),
        usage_json: None,
        created_at: "2024-01-01T00:00:00Z".to_string(),
    }
}

fn previous_message(text: &str) -> ItemRecord {
    ItemRecord {
        id: "msg_mw_prev_assistant".to_string(),
        item_type: "message".to_string(),
        role: Some("assistant".to_string()),
        call_id: None,
        content_json: format!(r#"[{{"annotations":[],"text":"{}","type":"output_text"}}]"#, text),
        visible: 1,
    }
}

fn continued(text: &str) -> ContinuationContext {
    let raw = json(r#"{"previous_response_id": "resp_mw_prev"}"#);
    load_continuation_context(
        &raw,
        Ok(Some(previous_response())),
        Ok(vec![previous_message(text)]),
        &vec!["call_fresh".to_string()],
        Ok(Some(HandleRecord {
            credential_hash: "hash-k1".to_string(),
            upstream_response_id: Some("resp_upstream_prev".to_string()),
        })),
    )
    .unwrap()
    .unwrap()
}

fn prepare(raw: &Json, target: &TargetSnapshot, continuation: Option<&ContinuationContext>) -> Preparation {
    prepare_target("req", raw, "codex-main", target, continuation, Some("Bearer mw_k1"), "hash-k1")
}

fn refused(preparation: Preparation) -> (Error, bool) {
    match preparation {
        Preparation::Refuse { error, key_missing } => (error, key_missing),
        other => panic!("should be refused: {:?}", other),
    }
}

#[test]
fn routes_are_snapshot_with_their_targets() {
    let snapshot = single_target("auto", Some("provider-key"));
    assert_eq!(snapshot.route_id, "route-a");
    assert_eq!(snapshot.downstream_model, "codex-main");
    let first = &snapshot.targets[0];
    assert_eq!(first.target_id, "route-a:provider-a:10");
    assert_eq!(first.provider_id, "provider-a");
    assert_eq!(first.provider_name, "Provider provider-a");
    assert_eq!(first.provider_api_key.as_deref(), Some("provider-key"));
    assert_eq!(first.configured_wire_api, WireApi::Auto);
    assert_eq!(first.context_window_tokens, Some(200_000));
    assert_eq!(first.priority, 10);
    assert_eq!(
        target_effective_id("r", &target("p", "auto", -3, 1, "reject")),
        "r:p:-3"
    );
}

#[test]
fn unknown_protocols_fall_back_to_the_providers() {
    assert_eq!(
        single_target("grpc", None).targets[0].configured_wire_api,
        WireApi::Responses
    );
    let mut owner = provider("provider-a", None);
    owner.default_wire_api = "soap".to_string();
    let candidates =
        vec![candidate(target("provider-a", "grpc", 1, 1, "reject"), Some(owner))];
    let snapshot = snapshot_route(Some(&route()), "codex-main", &candidates, None).unwrap();
    assert_eq!(snapshot.targets[0].configured_wire_api, WireApi::Auto);
}

#[test]
fn routes_that_cannot_be_used_are_reported() {
    let error = snapshot_route(None, "nope", &Vec::new(), None).unwrap_err();
    assert_eq!(error.kind, ErrorKind::ModelNotFound);
    assert_eq!(error.message, "Model 'nope' not found");
    let mut disabled = route();
    disabled.enabled = false;
    let error = snapshot_route(Some(&disabled), "codex-main", &Vec::new(), None).unwrap_err();
    assert_eq!(error.message, "Model 'codex-main' is disabled");
    let error = snapshot_route(Some(&route()), "codex-main", &Vec::new(), None).unwrap_err();
    assert_eq!(error.kind, ErrorKind::UpstreamUnavailable);
    assert_eq!(error.message, "No upstream targets configured");
}

#[test]
fn targets_out_of_scope_are_passed_over() {
    let blocked = TargetCandidate {
        target: target("provider-c", "auto", 5, 1, "reject"),
        provider: Some(ProviderConfig { skip_ssrf_validation: false, ..provider("provider-c", None) }),
        url_verdict: UrlVerdict::Blocked { reason: "private".to_string() },
    };
    let candidates = vec![
        blocked,
        candidate(target("gone", "auto", 6, 1, "reject"), None),
        candidate(target("provider-a", "auto", 10, 1, "reject"), Some(provider("provider-a", None))),
        candidate(target("provider-b", "auto", 20, 1, "reject"), Some(provider("provider-b", None))),
    ];
    let snapshot = snapshot_route(Some(&route()), "codex-main", &candidates, None).unwrap();
    let ids: Vec<&str> = snapshot.targets.iter().map(|t| t.provider_id.as_str()).collect();
    assert_eq!(ids, vec!["provider-a", "provider-b"]);
    let allowed = vec!["provider-b".to_string()];
    let snapshot = snapshot_route(Some(&route()), "codex-main", &candidates, Some(&allowed)).unwrap();
    assert_eq!(snapshot.targets.len(), 1);
    assert_eq!(snapshot.targets[0].provider_id, "provider-b");
    let none = vec!["provider-z".to_string()];
    let error = snapshot_route(Some(&route()), "codex-main", &candidates, Some(&none)).unwrap_err();
    assert_eq!(error.kind, ErrorKind::AuthFailed);
    assert_eq!(
        error.message,
        "Relay key is not allowed to access any provider for model 'codex-main'"
    );
}

#[test]
fn upstream_keys_follow_the_auth_mode() {
    let mut snapshot = single_target("responses", Some("stored")).targets.remove(0);
    let presented = Some("Bearer sk-client");
    assert_eq!(resolve_upstream_key(&snapshot, presented).as_deref(), Some("stored"));
    snapshot.provider_auth_mode = "pass_authorization".to_string();
    assert_eq!(resolve_upstream_key(&snapshot, presented).as_deref(), Some("sk-client"));
    assert_eq!(resolve_upstream_key(&snapshot, Some("Basic x")).as_deref(), Some("stored"));
    snapshot.provider_api_key = None;
    assert_eq!(resolve_upstream_key(&snapshot, None), None);
    assert_eq!(resolve_upstream_key_checked(&snapshot, None).unwrap(), None);
    snapshot.provider_auth_mode = "managed".to_string();
    let error = resolve_upstream_key_checked(&snapshot, presented).unwrap_err();
    assert_eq!(error.kind, ErrorKind::InternalError);
    assert_eq!(error.message, "Managed provider key is missing");
    assert_eq!(strip_bearer("Bearer "), Some(""));
    assert_eq!(strip_bearer("bearer x"), None);
}

#[test]
fn missing_managed_keys_stop_a_request() {
    let snapshot = single_target("responses", None);
    let raw = json(r#"{"model": "codex-main", "input": "hello"}"#);
    let (error, key_missing) = refused(prepare(&raw, &snapshot.targets[0], None));
    assert_eq!(error.kind, ErrorKind::InternalError);
    assert!(error.message.contains("Managed provider key is missing"));
    assert!(key_missing);
}

#[test]
fn oversized_requests_never_reach_an_upstream() {
    let snapshot = single_target("responses", Some("k1"));
    let raw = json(&format!(
        r#"{{"model": "codex-main", "input": "{}", "max_output_tokens": 20000}}"#,
        "x".repeat(1_200_000)
    ));
    let (error, key_missing) = refused(prepare(&raw, &snapshot.targets[0], None));
    assert_eq!(error.kind, ErrorKind::ContextLengthExceeded);
    assert_eq!(
        error.message,
        "Estimated token budget 320000 exceeds safe context budget 198000 for target 'route-a:provider-a:10'"
    );
    assert!(!key_missing);
}

#[test]
fn overflow_falls_back_to_a_larger_target() {
    let snapshot = two_targets("responses");
    let raw = json(&format!(
        r#"{{"model": "codex-main", "input": "{}", "max_output_tokens": 2000}}"#,
        "x".repeat(500_000)
    ));
    let (mut walk, step) = TargetWalk::start(&snapshot, false, false);
    assert!(matches!(step, WalkStep::Try { position: 0 }));
    let error = match prepare(&raw, &snapshot.targets[0], None) {
        Preparation::PassOver { error } => error,
        other => panic!("should be passed over: {:?}", other),
    };
    assert_eq!(error.kind, ErrorKind::ContextLengthExceeded);
    let step = walk.advance(TargetOutcome::PassedOver { error });
    assert!(matches!(step, WalkStep::Try { position: 1 }));
    match prepare(&raw, &snapshot.targets[1], None) {
        Preparation::Ready { request, upstream_key } => {
            assert_eq!(upstream_key.as_deref(), Some("k1"));
            assert_eq!(request.upstream_model, "gpt-upstream");
        }
        other => panic!("should be ready: {:?}", other),
    }
    assert!(matches!(walk.advance(TargetOutcome::Served), WalkStep::Answer));
}

#[test]
fn history_counts_against_the_window() {
    let mut snapshot = single_target("responses", Some("k1"));
    snapshot.targets[0].context_window_tokens = Some(50_000);
    snapshot.targets[0].context_safety_margin_tokens = Some(1_000);
    let raw = json(r#"{"model": "codex-main", "input": "next", "previous_response_id": "resp_mw_prev"}"#);
    let small = continued("short");
    assert!(matches!(
        prepare(&raw, &snapshot.targets[0], Some(&small)),
        Preparation::Ready { .. }
    ));
    let large = continued(&"h".repeat(260_000));
    let (error, _) = refused(prepare(&raw, &snapshot.targets[0], Some(&large)));
    assert_eq!(error.kind, ErrorKind::ContextLengthExceeded);
}

#[test]
fn tool_schemas_count_against_the_window() {
    let mut snapshot = single_target("responses", Some("k1"));
    snapshot.targets[0].context_window_tokens = Some(8_000);
    snapshot.targets[0].context_safety_margin_tokens = Some(500);
    let raw = json(&format!(
        r#"{{"model": "codex-main", "input": "short", "tools": [{{"type": "function", "function": {{
            "name": "huge_schema", "description": "large schema",
            "parameters": {{"type": "object", "properties": {{"blob": {{"type": "string", "description": "{}"}}}}}}
        }}}}]}}"#,
        "x".repeat(60_000)
    ));
    let (error, _) = refused(prepare(&raw, &snapshot.targets[0], None));
    assert_eq!(error.kind, ErrorKind::ContextLengthExceeded);
}

#[test]
fn tokens_are_estimated_by_length() {
    let request = |text: &str| {
        let raw = json(&format!(r#"{{"input": "{}"}}"#, text));
        parse_canonical_request("r", &raw, "d", "u").unwrap()
    };
    assert_eq!(estimate_request_tokens(&request("")), 1);
    assert_eq!(estimate_request_tokens(&request("abcd")), 1);
    assert_eq!(estimate_request_tokens(&request("abcde")), 2);
    // Two bytes for each of these letters.
    assert_eq!(estimate_request_tokens(&request("äöüßé")), 3);
    let raw = json(r#"{"input": "abcd", "instructions": "abcd", "tools": [{"name": "abcd", "description": "abcd", "parameters": {}}]}"#);
    let full = parse_canonical_request("r", &raw, "d", "u").unwrap();
    assert_eq!(estimate_request_tokens(&full), 5);
}

#[test]
fn windows_are_optional_and_guarded_by_a_margin() {
    let mut snapshot = single_target("responses", Some("k1")).targets.remove(0);
    let raw = json(r#"{"input": "abcd", "max_output_tokens": 10}"#);
    let request = parse_canonical_request("r", &raw, "d", "u").unwrap();
    snapshot.context_window_tokens = Some(2_059);
    snapshot.context_safety_margin_tokens = None;
    assert!(context_guard_check(&snapshot, &request).is_ok());
    snapshot.context_window_tokens = Some(2_058);
    assert!(context_guard_check(&snapshot, &request).is_err());
    snapshot.context_window_tokens = Some(100);
    assert!(context_guard_check(&snapshot, &request).is_err());
    snapshot.context_window_tokens = None;
    assert!(context_guard_check(&snapshot, &request).is_ok());
    assert!(!should_fallback_on_context_guard(&snapshot));
    snapshot.context_overflow_policy = "fallback".to_string();
    assert!(should_fallback_on_context_guard(&snapshot));
}

#[test]
fn targets_without_known_tools_are_passed_over() {
    let snapshot = single_target("auto", Some("k1")).targets.remove(0);
    let raw = json(r#"{"input": "x", "tools": [{"name": "get_weather"}]}"#);
    let request = parse_canonical_request("r", &raw, "d", "u").unwrap();
    let resolved = |known: bool, supported: bool| ResolvedTargetProtocol {
        wire_api: WireApi::Responses,
        credential_hash: "h".to_string(),
        tool_support_known: known,
        supports_tools: supported,
    };
    assert!(should_skip_target_for_tool_support(&snapshot, &request, &resolved(false, false)));
    assert!(should_skip_target_for_tool_support(&snapshot, &request, &resolved(true, false)));
    assert!(!should_skip_target_for_tool_support(&snapshot, &request, &resolved(true, true)));
    let error = check_tool_support(&snapshot, &request, &resolved(false, true)).unwrap();
    assert_eq!(error.kind, ErrorKind::ProtocolNotSupported);
    assert_eq!(
        error.message,
        "Target 'route-a:provider-a:10' cannot be used for tool-bearing request because tool support is unknown/unsupported"
    );
    let forced = single_target("responses", Some("k1")).targets.remove(0);
    assert!(check_tool_support(&forced, &request, &resolved(false, false)).is_none());
    let plain = parse_canonical_request("r", &json(r#"{"input": "x"}"#), "d", "u").unwrap();
    assert!(check_tool_support(&snapshot, &plain, &resolved(false, false)).is_none());
}

#[test]
fn first_target_that_does_not_fall_back_decides() {
    let snapshot = two_targets("responses");
    let (mut walk, _) = TargetWalk::start(&snapshot, false, false);
    let step = walk.advance(TargetOutcome::Failed {
        error: Error::new(ErrorKind::RequestInvalid, "bad"),
        fallback_eligible: false,
    });
    match step {
        WalkStep::Refuse { error } => assert_eq!(error.message, "bad"),
        other => panic!("{:?}", other),
    }
    let (mut walk, _) = TargetWalk::start(&snapshot, false, true);
    let step = walk.advance(TargetOutcome::Refused { error: Error::new(ErrorKind::InternalError, "stop") });
    assert!(matches!(step, WalkStep::Refuse { error } if error.message == "stop"));
}

#[test]
fn exhausted_targets_report_the_last_error() {
    let snapshot = two_targets("responses");
    let (mut walk, _) = TargetWalk::start(&snapshot, false, false);
    let step = walk.advance(TargetOutcome::Failed {
        error: Error::new(ErrorKind::UpstreamTimeout, "slow"),
        fallback_eligible: true,
    });
    assert!(matches!(step, WalkStep::Try { position: 1 }));
    let step = walk.advance(TargetOutcome::Failed {
        error: Error::new(ErrorKind::UpstreamUnavailable, "down"),
        fallback_eligible: true,
    });
    match step {
        WalkStep::Refuse { error } => {
            assert_eq!(error.kind, ErrorKind::UpstreamUnavailable);
            assert_eq!(error.message, "down");
        }
        other => panic!("{:?}", other),
    }
}

#[test]
fn tool_requests_without_a_target_say_so() {
    let snapshot = single_target("auto", Some("k1"));
    let (mut walk, _) = TargetWalk::start(&snapshot, true, false);
    let step = walk.advance(TargetOutcome::PassedOver {
        error: Error::new(ErrorKind::ProtocolNotSupported, "no tools here"),
    });
    match step {
        WalkStep::Refuse { error } => {
            assert_eq!(error.kind, ErrorKind::ProtocolNotSupported);
            assert_eq!(
                error.message,
                "No upstream target with known tool support could satisfy this tool-bearing request"
            );
        }
        other => panic!("{:?}", other),
    }
}
