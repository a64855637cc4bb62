use modelwire_server::canonical::WireApi;
use modelwire_server::error::{Error, ErrorKind};
use modelwire_server::json::{parse_json, render_json, Json};
use modelwire_server::relay::compaction::{
    approximate_tokens, build_visible_transcript_for_summary, compact_call, compact_headers,
    compact_protocol, compact_url, finish_local_summary, load_compaction_source_state,
    perform_local_summary_compact,
    perform_local_summary_compact_as, source_response_id, target_matches_compaction_source,
    try_target_compact, try_target_compact_as, CompactAnswer, CompactOutcome, CompactStep,
    CompactWalk, CompactionSourceState, SummarySettings,
};
use modelwire_server::relay::context::ResolvedTargetProtocol;
use modelwire_server::relay::target::{RouteSnapshot, TargetSnapshot};
use modelwire_server::store::{ItemRecord, ResponseRecord};

fn json(text: &str) -> Json {
    parse_json(text).unwrap()
}

fn target(provider: &str, scope: &str, wire_api: WireApi) -> TargetSnapshot {
    TargetSnapshot {
        target_id: format!("route-a:{}:10", provider),
        provider_id: provider.to_string(),
        provider_name: provider.to_string(),
        provider_base_url: "https://api.example.com/v1".to_string(),
        provider_auth_mode: "managed".to_string(),
        provider_api_key: None,
        state_scope: Some(scope.to_string()),
        upstream_model: "gpt-upstream".to_string(),
        configured_wire_api: wire_api,
        priority: 10,
        context_window_tokens: None,
        max_output_tokens: None,
        context_safety_margin_tokens: None,
        context_overflow_policy: "reject".to_string(),
    }
}

fn route(targets: Vec<TargetSnapshot>) -> RouteSnapshot {
    RouteSnapshot {
        route_id: "route-a".to_string(),
        downstream_model: "codex-main".to_string(),
        targets,
    }
}

fn source() -> CompactionSourceState {
    CompactionSourceState {
        response_id: "resp_mw_prev".to_string(),
        provider_id: "provider-a".to_string(),
        upstream_model: Some("gpt-upstream".to_string()),
        state_scope: Some("scope-a".to_string()),
    }
}

fn record(provider: Option<&str>) -> ResponseRecord {
    ResponseRecord {
        id: "resp_mw_prev".to_string(),
        downstream_model: "codex-main".to_string(),
        provider_id: provider.map(|id| id.to_string()),
        upstream_model: Some("gpt-upstream".to_string()),
        wire_api: Some("responses".to_string()),
        state_scope: Some("scope-a".to_string()),
        status: "completed".to_string(),
        usage_json: None,
        created_at: String::new(),
    }
}

fn message(text: &str, visible: i64) -> ItemRecord {
    ItemRecord {
        id: "m".to_string(),
        item_type: "message".to_string(),
        role: Some("assistant".to_string()),
        call_id: None,
        content_json: format!(r#"[{{"text":"{}","type":"output_text"}}]"#, text),
        visible,
    }
}

fn resolved(wire_api: WireApi) -> ResolvedTargetProtocol {
    ResolvedTargetProtocol {
        wire_api,
        credential_hash: "h".to_string(),
        tool_support_known: false,
        supports_tools: false,
    }
}

#[test]
fn only_responses_targets_are_called() {
    let target = target("provider-a", "scope-a", WireApi::Auto);
    for wire_api in [WireApi::Auto, WireApi::OpenAiChat, WireApi::Anthropic] {
        assert!(matches!(
            compact_protocol(&resolved(wire_api)),
            Some(CompactOutcome::OtherProtocol)
        ));
        assert!(matches!(
            compact_call(&target, &resolved(wire_api), None),
            Err(CompactOutcome::OtherProtocol)
        ));
    }
    let call = compact_call(&target, &resolved(WireApi::Responses), Some("sk-1")).unwrap();
    assert_eq!(call.url, "https://api.example.com/v1/responses/compact");
    let pair = |name: &str, value: &str| (name.to_string(), value.to_string());
    assert_eq!(
        call.headers,
        vec![pair("content-type", "application/json"), pair("authorization", "Bearer sk-1")]
    );
    assert_eq!(compact_headers(None), vec![pair("content-type", "application/json")]);
}

#[test]
fn chat_and_anthropic_targets_do_not_compact() {
    for wire_api in [WireApi::OpenAiChat, WireApi::Anthropic] {
        let route = route(vec![target("provider-a", "scope-a", wire_api)]);
        let (mut walk, step) = CompactWalk::start(&route, None, "native_responses");
        assert!(matches!(step, CompactStep::Try { position: 0 }));
        let outcome = compact_call(&route.targets[0], &resolved(wire_api), Some("k")).unwrap_err();
        match walk.advance(0, outcome) {
            CompactStep::Refuse { error } => {
                assert_eq!(error.kind, ErrorKind::ProtocolNotSupported);
                assert_eq!(
                    error.message,
                    "Compaction unavailable for mode 'native_responses'; no compatible /v1/responses/compact target"
                );
            }
            other => panic!("{:?}", other),
        }
    }
}

#[test]
fn compaction_never_leaves_the_state_scope() {
    let route = route(vec![target("provider-b", "scope-b", WireApi::Responses)]);
    let (_, step) = CompactWalk::start(&route, Some(&source()), "native_responses");
    assert!(matches!(step, CompactStep::Refuse { error } if error.kind == ErrorKind::ProtocolNotSupported));
    let same = target("provider-a", "scope-a", WireApi::Responses);
    assert!(target_matches_compaction_source(&same, Some(&source())));
    assert!(!target_matches_compaction_source(
        &target("provider-a", "scope-b", WireApi::Responses),
        Some(&source())
    ));
    let mut other_model = target("provider-a", "scope-a", WireApi::Responses);
    other_model.upstream_model = "gpt-other".to_string();
    assert!(!target_matches_compaction_source(&other_model, Some(&source())));
    let any_model = CompactionSourceState { upstream_model: None, ..source() };
    assert!(target_matches_compaction_source(&other_model, Some(&any_model)));
    assert!(target_matches_compaction_source(&other_model, None));
}

#[test]
fn first_compatible_target_compacts() {
    let route = route(vec![
        target("provider-a", "scope-a", WireApi::OpenAiChat),
        target("provider-b", "scope-a", WireApi::Responses),
    ]);
    let (mut walk, step) = CompactWalk::start(&route, None, "native_responses");
    assert!(matches!(step, CompactStep::Try { position: 0 }));
    let outcome = compact_protocol(&resolved(WireApi::OpenAiChat)).unwrap();
    let step = walk.advance(0, outcome);
    assert!(matches!(step, CompactStep::Try { position: 1 }));
    assert!(compact_protocol(&resolved(WireApi::Responses)).is_none());
    assert!(matches!(walk.advance(1, CompactOutcome::Served), CompactStep::Answer));
    let raw = json(r#"{"model": "codex-main"}"#);
    let body = br#"{"id":"cmp_upstream_ok","object":"response.compaction","status":"completed"}"#;
    match try_target_compact_as(
        "clg_1".to_string(), "req", &route, &route.targets[1], None, &raw, 200, &body.to_vec(),
    ) {
        CompactAnswer::Compacted { answer, lineage } => {
            assert_eq!(answer.get_str("id"), Some("cmp_upstream_ok"));
            assert_eq!(lineage.id, "clg_1");
            assert_eq!(lineage.method, "native_responses");
            assert!(lineage.provider_native);
            assert_eq!(lineage.source_response_ids_json, "[]");
            assert_eq!(lineage.provider_id.as_deref(), Some("provider-b"));
            assert_eq!(lineage.source_tokens, None);
        }
        other => panic!("{:?}", other),
    }
    assert_eq!(compact_url(&route.targets[1]), "https://api.example.com/v1/responses/compact");
}

#[test]
fn refused_compactions_are_logged() {
    let route = route(vec![target("provider-a", "scope-a", WireApi::Responses)]);
    let raw = json(r#"{"input": "x"}"#);
    match try_target_compact(
        "req", &route, &route.targets[0], Some(&source()), &raw, 503, &b"busy".to_vec(),
    ) {
        CompactAnswer::Refused { error, log } => {
            assert_eq!(error.kind, ErrorKind::UpstreamUnavailable);
            assert_eq!(error.message, "busy");
            assert_eq!(log.status_code, Some(503));
            assert_eq!(log.error_kind.as_deref(), Some("compact_error"));
            assert_eq!(log.downstream_model.as_deref(), Some("unknown"));
            assert_eq!(log.route_id, None);
        }
        other => panic!("{:?}", other),
    }
    match try_target_compact(
        "req", &route, &route.targets[0], Some(&source()), &raw, 200, &b"<html>".to_vec(),
    ) {
        CompactAnswer::Unreadable { error } => {
            assert_eq!(error.kind, ErrorKind::UpstreamUnavailable);
            assert!(error.message.starts_with("Compact endpoint returned invalid JSON: "));
        }
        other => panic!("{:?}", other),
    }
    match try_target_compact(
        "req", &route, &route.targets[0], Some(&source()), &raw, 200, &b"{}".to_vec(),
    ) {
        CompactAnswer::Compacted { lineage, .. } => {
            assert!(lineage.id.starts_with("clg_"));
            assert_eq!(lineage.source_response_ids_json, r#"["resp_mw_prev"]"#);
        }
        other => panic!("{:?}", other),
    }
}

#[test]
fn failing_targets_fall_back() {
    let two = || {
        route(vec![
            target("provider-a", "scope-a", WireApi::Responses),
            target("provider-b", "scope-a", WireApi::Responses),
        ])
    };
    let failed = |eligible: bool| CompactOutcome::Failed {
        error: Error::new(ErrorKind::UpstreamTimeout, "slow"),
        fallback_eligible: eligible,
    };
    let (mut walk, _) = CompactWalk::start(&two(), None, "hybrid");
    assert!(matches!(walk.advance(0, failed(true)), CompactStep::Try { position: 1 }));
    assert!(matches!(walk.advance(1, failed(true)), CompactStep::Summarise));
    let (mut walk, _) = CompactWalk::start(&two(), None, "native_responses");
    assert!(matches!(walk.advance(0, failed(true)), CompactStep::Try { position: 1 }));
    assert!(matches!(
        walk.advance(1, failed(true)),
        CompactStep::Refuse { error } if error.message == "slow"
    ));
    let (mut walk, _) = CompactWalk::start(&two(), None, "hybrid");
    assert!(matches!(walk.advance(0, failed(false)), CompactStep::Refuse { .. }));
    let (_, step) = CompactWalk::start(&two(), None, "local_summary");
    assert!(matches!(step, CompactStep::Summarise));
    let (_, step) = CompactWalk::start(&two(), None, "none");
    assert!(matches!(step, CompactStep::Refuse { error } if error.kind == ErrorKind::ProtocolNotSupported));
}

#[test]
fn compaction_sources_are_loaded() {
    let raw = json(r#"{"response_id": "b", "previous_response_id": "a"}"#);
    assert_eq!(source_response_id(&raw), Some("a"));
    assert_eq!(source_response_id(&json(r#"{"response_id": "b"}"#)), Some("b"));
    assert!(load_compaction_source_state(&json("{}"), Ok(None)).unwrap().is_none());
    let state =
        load_compaction_source_state(&raw, Ok(Some(record(Some("provider-a"))))).unwrap().unwrap();
    assert_eq!(state.response_id, "resp_mw_prev");
    assert_eq!(state.provider_id, "provider-a");
    assert_eq!(state.state_scope.as_deref(), Some("scope-a"));
    let error = load_compaction_source_state(&raw, Ok(None)).unwrap_err();
    assert_eq!(error.kind, ErrorKind::StateNotFound);
    assert_eq!(error.message, "Compaction source response 'a' was not found");
    let error = load_compaction_source_state(&raw, Ok(Some(record(None)))).unwrap_err();
    assert_eq!(error.kind, ErrorKind::StateNotContinuable);
    assert_eq!(
        error.message,
        "Compaction source response 'resp_mw_prev' is missing provider lineage"
    );
    let error = load_compaction_source_state(&raw, Err("io".to_string())).unwrap_err();
    assert_eq!(error.message, "Failed to load compact source response state: io");
}

fn settings(max_chars: usize) -> SummarySettings {
    SummarySettings {
        max_chars,
        model: Some("summary-model-a".to_string()),
        prompt_version: Some("prompt-v42".to_string()),
    }
}

#[test]
fn local_summaries_keep_their_lineage() {
    let summary = perform_local_summary_compact_as(
        "cmp_mw_1",
        "clg_1",
        "req_local_summary",
        &route(Vec::new()),
        Some(&source()),
        Ok(vec![message("alpha beta gamma delta", 1)]),
        &settings(10),
    )
    .unwrap();
    assert_eq!(summary.lineage.method, "local_summary");
    assert!(!summary.lineage.provider_native);
    assert_eq!(summary.lineage.summarizer_model.as_deref(), Some("summary-model-a"));
    assert_eq!(summary.lineage.prompt_version.as_deref(), Some("prompt-v42"));
    assert_eq!(summary.lineage.source_tokens, Some(6));
    assert_eq!(summary.lineage.summary_tokens, Some(3));
    assert_eq!(summary.lineage.source_response_ids_json, r#"["resp_mw_prev"]"#);
    assert_eq!(
        render_json(&summary.answer),
        r#"{"id":"cmp_mw_1","lineage_id":"clg_1","method":"local_summary","model":"codex-main","object":"response.compaction","provider_native":false,"source_response_ids":["resp_mw_prev"],"status":"completed","summary":{"prompt_version":"prompt-v42","summarizer_model":"summary-model-a","text":"alpha beta","type":"modelwire_local_summary"},"usage":{"input_tokens":6,"output_tokens":3,"total_tokens":9}}"#
    );
    let error = finish_local_summary(summary, Err("full".to_string())).unwrap_err();
    assert_eq!(error.message, "Failed to persist local summary lineage: full");
}

#[test]
fn local_summaries_need_a_source() {
    let plain = SummarySettings { max_chars: 0, model: None, prompt_version: None };
    let error =
        perform_local_summary_compact("r", &route(Vec::new()), None, Ok(Vec::new()), &plain).unwrap_err();
    assert_eq!(error.kind, ErrorKind::RequestInvalid);
    assert_eq!(
        error.message,
        "local_summary compaction requires response_id or previous_response_id"
    );
    let error = perform_local_summary_compact(
        "r", &route(Vec::new()), Some(&source()), Err("io".to_string()), &plain,
    )
    .unwrap_err();
    assert_eq!(error.message, "Failed to load source response items for local summary: io");
    let summary = perform_local_summary_compact(
        "r", &route(Vec::new()), Some(&source()), Ok(Vec::new()), &plain,
    )
    .unwrap();
    let answer = finish_local_summary(summary, Ok(())).unwrap();
    let shown = answer.get("summary").unwrap();
    assert_eq!(shown.get_str("text"), Some("N"));
    assert_eq!(shown.get_str("summarizer_model"), Some("modelwire-local-summary"));
    assert_eq!(shown.get_str("prompt_version"), Some("v1"));
    assert!(answer.get_str("id").unwrap().starts_with("cmp_mw_"));
}

#[test]
fn transcripts_show_what_was_visible() {
    let call = |content: &str| ItemRecord {
        id: "c".to_string(),
        item_type: "function_call".to_string(),
        role: None,
        call_id: None,
        content_json: content.to_string(),
        visible: 0,
    };
    let items = vec![
        message("one", 1),
        message("secret", 0),
        call(r#"{"name":"f","arguments":"{1}"}"#),
        call("broken"),
    ];
    assert_eq!(
        build_visible_transcript_for_summary(&items),
        "one\ntool f: {1}\ntool tool: {}\n"
    );
    assert_eq!(approximate_tokens(""), 1);
    assert_eq!(approximate_tokens("äöüß"), 1);
    assert_eq!(approximate_tokens("abcde"), 2);
}
