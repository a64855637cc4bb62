use modelwire_server::admin::probes::{list_probes, refresh_answer};
use modelwire_server::canonical::WireApi;
use modelwire_server::clock::{parse_db_timestamp_to_unix, time_or};
use modelwire_server::error::ErrorKind;
use modelwire_server::json::render_json;
use modelwire_server::relay::probe::{
    classify_probe_message, credential_hash_for_probe, credential_secret, first_candidate,
    flag_is_set, is_protocol_unsupported_probe_status, keep_probe, load_probe_from_db,
    load_probe_from_row_at, looks_like_model_invalid, new_probe, probe_body, probe_cache_key,
    probe_candidate_once, probe_headers, probe_unanswered, probe_url, probe_wire_api,
    probe_wire_api_at, resolve_from_config, resolve_from_probe, resolve_next, resolve_start,
    ProbeAttemptResult, ProbeCache, ProbeResult, ProbeRow, ProbeStep, ResolveStep,
};
use modelwire_server::relay::target::TargetSnapshot;

fn target(wire_api: WireApi) -> TargetSnapshot {
    TargetSnapshot {
        target_id: "route-a:provider-a:10".to_string(),
        provider_id: "provider-a".to_string(),
        provider_name: "Provider A".to_string(),
        provider_base_url: "https://api.example.com/v1".to_string(),
        provider_auth_mode: "managed".to_string(),
        provider_api_key: Some("k1".to_string()),
        state_scope: None,
        upstream_model: "gpt-upstream".to_string(),
        configured_wire_api: wire_api,
        priority: 10,
        context_window_tokens: None,
        max_output_tokens: None,
        context_safety_margin_tokens: None,
        context_overflow_policy: "reject".to_string(),
    }
}

fn row() -> ProbeRow {
    ProbeRow {
        provider_id: "provider-a".to_string(),
        credential_hash: "h".to_string(),
        upstream_model: "gpt-upstream".to_string(),
        wire_api: "anthropic".to_string(),
        status: "success".to_string(),
        supports_streaming: Some(1),
        supports_tools: Some(0),
        supports_parallel_tool_calls: None,
        supports_previous_response_id: Some(5),
        supports_reasoning_encrypted_content: None,
        supports_reasoning_summary: None,
        last_success_at: Some("1970-01-01T00:01:00Z".to_string()),
        last_failure_at: Some("whenever".to_string()),
        failure_kind: None,
        failure_message_redacted: Some("m".to_string()),
        expires_at: "1970-01-01T01:00:00+00:00".to_string(),
    }
}

fn walk(answers: &[(u16, &str)]) -> ProbeStep {
    let target = target(WireApi::Auto);
    let mut candidate = first_candidate();
    for (status, body) in answers {
        let result = probe_candidate_once(*status, &body.as_bytes().to_vec());
        match probe_wire_api_at(&target, "h", candidate, result, 100) {
            ProbeStep::Try { candidate: next } => candidate = next,
            step => return step,
        }
    }
    ProbeStep::Try { candidate }
}

#[test]
fn unspoken_protocols_are_passed_over() {
    match walk(&[(404, "not found"), (200, "{}")]) {
        ProbeStep::Found { probe } => {
            assert_eq!(probe.wire_api, WireApi::Anthropic);
            assert_eq!(probe.last_success_at, Some(100));
            assert_eq!(probe.expires_at, 3700);
            assert!(!probe.tool_support_known);
        }
        other => panic!("{:?}", other),
    }
    match walk(&[(405, ""), (501, ""), (400, "who knows")]) {
        ProbeStep::NoneSpoken { error } => {
            assert_eq!(error.kind, ErrorKind::ProtocolNotSupported);
            assert_eq!(error.message, "No supported upstream protocol found for target");
        }
        other => panic!("{:?}", other),
    }
    assert!(matches!(walk(&[(404, "")]), ProbeStep::Try { candidate: WireApi::Anthropic }));
}

#[test]
fn other_failures_end_a_probe() {
    let cases = [
        (401, "unauthorized", ErrorKind::AuthFailed),
        (403, "no", ErrorKind::AuthFailed),
        (400, "The Model does not exist", ErrorKind::ModelNotFound),
        (429, "slow", ErrorKind::RateLimited),
        (500, "boom", ErrorKind::UpstreamUnavailable),
        (504, "late", ErrorKind::UpstreamTimeout),
        (302, "moved", ErrorKind::UpstreamUnavailable),
    ];
    for (status, body, kind) in cases {
        match walk(&[(status, body)]) {
            ProbeStep::Fail { error } => {
                assert_eq!(error.kind, kind);
                assert_eq!(error.message, body);
            }
            other => panic!("{:?}", other),
        }
    }
    let step = probe_wire_api(
        &target(WireApi::Auto),
        "h",
        WireApi::Responses,
        probe_unanswered(false, "refused"),
    );
    assert!(matches!(step, ProbeStep::Fail { error } if error.message == "Upstream request failed: refused"));
}

#[test]
fn messages_tell_protocols_from_models() {
    assert!(looks_like_model_invalid("Unknown MODEL"));
    assert!(!looks_like_model_invalid("unknown endpoint"));
    assert!(is_protocol_unsupported_probe_status(400, "Unknown Parameter: input"));
    assert!(is_protocol_unsupported_probe_status(404, ""));
    assert!(!is_protocol_unsupported_probe_status(400, "bad model"));
    assert!(!is_protocol_unsupported_probe_status(422, "not supported"));
    let result = classify_probe_message(200, "x".to_string(), "x");
    assert!(matches!(result, ProbeAttemptResult::Supported));
}

#[test]
fn probes_ask_for_one_token() {
    let target = target(WireApi::Auto);
    assert_eq!(
        render_json(&probe_body(&target)),
        r#"{"input":"Reply with OK.","max_output_tokens":1,"model":"gpt-upstream","stream":false}"#
    );
    assert_eq!(probe_url(&target, WireApi::Responses), "https://api.example.com/v1/responses");
    assert_eq!(probe_url(&target, WireApi::Anthropic), "https://api.example.com/v1/messages");
    assert_eq!(
        probe_url(&target, WireApi::OpenAiChat),
        "https://api.example.com/v1/chat/completions"
    );
    let headers = probe_headers(WireApi::Anthropic, Some("k1"));
    let names: Vec<(&str, &str)> =
        headers.iter().map(|(name, value)| (name.as_str(), value.as_str())).collect();
    assert_eq!(
        names,
        vec![
            ("content-type", "application/json"),
            ("authorization", "Bearer k1"),
            ("x-api-key", "k1"),
            ("anthropic-version", "2023-06-01"),
        ]
    );
    assert_eq!(probe_headers(WireApi::Responses, None).len(), 1);
    assert_eq!(credential_secret("p"), "probe::p");
    assert_eq!(credential_hash_for_probe(None, "digest"), "no-key");
    assert_eq!(credential_hash_for_probe(Some("k"), "digest"), "digest");
    assert_eq!(probe_cache_key("p", "h", "m"), "p:h:m");
}

#[test]
fn cached_probes_are_used_until_they_expire() {
    let mut cache = ProbeCache::new();
    let probe = new_probe(&target(WireApi::Auto), "h", WireApi::Responses, 100);
    cache.remember_probe("k", &probe);
    assert_eq!(cache.len(), 1);
    let found = cache.load_probe_from_memory_cache_at("k", 3699).unwrap();
    let resolved = resolve_from_probe(&found, "h");
    assert_eq!(resolved.wire_api, WireApi::Responses);
    assert_eq!(resolved.credential_hash, "h");
    assert!(cache.load_probe_from_memory_cache_at("other", 3699).is_none());
    assert!(cache.load_probe_from_memory_cache_at("k", 3700).is_none());
    assert_eq!(cache.len(), 0);
    cache.remember_probe("k", &probe);
    assert!(cache.load_probe_from_memory_cache("k").is_none());
    cache.remember_probe("k", &probe);
    cache.clear();
    assert!(cache.entries().is_empty());
}

#[test]
fn forced_protocols_leave_a_visible_probe() {
    let mut cache = ProbeCache::new();
    let target = target(WireApi::Responses);
    let probe =
        cache.remember_forced_probe_visibility_at(&target, "h", WireApi::Responses, 100).unwrap();
    assert_eq!(probe.wire_api, WireApi::Responses);
    let entries = cache.entries();
    assert_eq!(entries.len(), 1);
    assert_eq!(entries[0].0, "provider-a:h:gpt-upstream");
    assert!(cache
        .remember_forced_probe_visibility_at(&target, "h", WireApi::Responses, 3699)
        .is_none());
    assert!(cache
        .remember_forced_probe_visibility_at(&target, "h", WireApi::Anthropic, 3699)
        .is_some());
    assert!(cache.remember_forced_probe_visibility(&target, "h", WireApi::Anthropic).is_some());
    assert!(cache.remember_forced_probe_visibility(&target, "h", WireApi::Anthropic).is_none());
    assert_eq!(resolve_from_config(&target, "h").unwrap().wire_api, WireApi::Responses);
    let auto = TargetSnapshot { configured_wire_api: WireApi::Auto, ..target };
    assert!(resolve_from_config(&auto, "h").is_none());
}

#[test]
fn stored_probes_are_loaded() {
    let target = target(WireApi::Auto);
    let probe = load_probe_from_row_at(Ok(Some(row())), &target, "h", 50).unwrap().unwrap();
    assert_eq!(probe.wire_api, WireApi::Anthropic);
    assert!(probe.supports_streaming && !probe.supports_tools && probe.tool_support_known);
    assert!(probe.supports_previous_response_id);
    assert_eq!(probe.last_success_at, Some(60));
    assert_eq!(probe.last_failure_at, None);
    assert_eq!(probe.expires_at, 3600);
    let mut endless = row();
    endless.expires_at = "never".to_string();
    endless.supports_tools = None;
    let probe = load_probe_from_row_at(Ok(Some(endless)), &target, "h", 50).unwrap().unwrap();
    assert_eq!(probe.expires_at, 3650);
    assert!(!probe.tool_support_known);
    let mut failed = row();
    failed.status = "failed".to_string();
    assert!(load_probe_from_row_at(Ok(Some(failed)), &target, "h", 50).unwrap().is_none());
    let mut odd = row();
    odd.wire_api = "soap".to_string();
    let error = load_probe_from_row_at(Ok(Some(odd)), &target, "h", 50).unwrap_err();
    assert_eq!(error.message, "Probe cache contains unknown wire_api");
    let error = load_probe_from_row_at(Err("io".to_string()), &target, "h", 50).unwrap_err();
    assert_eq!(error.kind, ErrorKind::InternalError);
    assert_eq!(error.message, "Failed to read probe cache: io");
    let mut cache = ProbeCache::new();
    let loaded = load_probe_from_db(&mut cache, Ok(Some(row())), &target, "h", "key").unwrap();
    assert!(loaded.is_some());
    assert_eq!(cache.len(), 1);
    assert!(load_probe_from_db(&mut cache, Ok(None), &target, "h", "key2").unwrap().is_none());
    assert_eq!(cache.len(), 1);
}

#[test]
fn found_probes_are_kept() {
    let mut cache = ProbeCache::new();
    let probe = new_probe(&target(WireApi::Auto), "h", WireApi::OpenAiChat, 100);
    let error = keep_probe(&mut cache, "k", &probe, Err("full".to_string())).unwrap_err();
    assert_eq!(error.message, "Failed to store probe success: full");
    assert_eq!(cache.len(), 0);
    let resolved = keep_probe(&mut cache, "k", &probe, Ok(())).unwrap();
    assert_eq!(resolved.wire_api, WireApi::OpenAiChat);
    assert_eq!(resolved.credential_hash, "h");
    assert_eq!(cache.len(), 1);
}

#[test]
fn probing_is_the_last_resort() {
    assert!(matches!(resolve_start(&target(WireApi::Anthropic)), ResolveStep::UseConfigured));
    let mut step = resolve_start(&target(WireApi::Auto));
    let mut looked = 0;
    while !matches!(step, ResolveStep::Probe) {
        step = resolve_next(step, false);
        looked += 1;
    }
    assert_eq!(looked, 5);
    let step = resolve_next(ResolveStep::LookInStoreAgain, true);
    assert!(matches!(step, ResolveStep::UseFound));
}

#[test]
fn stored_probes_hide_cached_ones() {
    let mut cache = ProbeCache::new();
    let probe = new_probe(&target(WireApi::Auto), "h", WireApi::Responses, 100);
    cache.remember_probe("provider-a:h:gpt-upstream", &probe);
    cache.remember_probe("provider-b:h:gpt-upstream", &probe);
    let listed = list_probes(&vec![row()], &cache.entries());
    assert_eq!(listed.len(), 2);
    assert_eq!(listed[0].get_str("source"), Some("persisted"));
    assert_eq!(listed[0].get_str("key"), Some("provider-a:h:gpt-upstream"));
    assert_eq!(listed[0].get_bool("supports_previous_response_id"), Some(true));
    assert_eq!(listed[0].get_str("expires_at"), Some("1970-01-01T01:00:00+00:00"));
    assert_eq!(listed[1].get_str("source"), Some("cache"));
    assert_eq!(listed[1].get_str("key"), Some("provider-b:h:gpt-upstream"));
    assert_eq!(listed[1].get_u64("expires_at"), Some(3700));
    assert_eq!(listed[1].get_str("wire_api"), Some("responses"));
}

#[test]
fn refreshing_reports_what_was_cleared() {
    assert_eq!(
        render_json(&refresh_answer(&Ok(3)).unwrap()),
        r#"{"persisted_cleared":3,"status":"probes_refreshed"}"#
    );
    let error = refresh_answer(&Err("locked".to_string())).unwrap_err();
    assert_eq!(error.message, "Failed to clear persisted probe results: locked");
}

#[test]
fn timestamps_are_read() {
    assert_eq!(parse_db_timestamp_to_unix("1970-01-01T00:00:10.5+00:00"), Some(10));
    assert_eq!(parse_db_timestamp_to_unix("1970-01-01T01:00:00+01:00"), Some(0));
    assert_eq!(parse_db_timestamp_to_unix("1970-01-01 00:00:10"), None);
    assert_eq!(time_or(None, 7), 7);
    assert_eq!(time_or(Some(1), 7), 1);
    assert!(flag_is_set(Some(-1)));
    assert!(!flag_is_set(None));
    let copy: ProbeResult = new_probe(&target(WireApi::Auto), "h", WireApi::Auto, 0).clone();
    assert_eq!(copy.upstream_model, "gpt-upstream");
}
