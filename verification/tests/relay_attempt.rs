use modelwire_server::canonical::{
    CanonicalEvent, CanonicalInputItem, CanonicalOutputItem, ContentBlock, ResponseUsage, WireApi,
};
use modelwire_server::error::ErrorKind;
use modelwire_server::json::{parse_json, render_json, Json};
use modelwire_server::relay::attempt::{
    build_routing_attempt, complete_attempt, log_call, log_missing_key, try_target, CallAction,
    CallEvent,
};
use modelwire_server::relay::context::ResolvedTargetProtocol;
use modelwire_server::relay::continuation::{load_continuation_context, ContinuationContext};
use modelwire_server::relay::persist::{
    persist_response_item, persist_response_shell, persist_response_shell_as,
};
use modelwire_server::relay::request::parse_canonical_request;
use modelwire_server::relay::response::{
    count_finished_items, extract_upstream_response_id, normalize_downstream_response,
    normalize_response_at, DownstreamContentBlock, DownstreamOutputItem, ItemIds,
};
use modelwire_server::relay::target::{RouteSnapshot, TargetSnapshot};
use modelwire_server::relay::upstream::{
    join_url, map_adapter_error, map_reqwest_error, map_upstream_status, redacted_upstream_error,
    UpstreamError,
};
use modelwire_server::routes::response_state::{
    find_response, get_response_input_items, items_to_output, load_response_payload,
    load_response_payload_at,
};
use modelwire_server::store::{HandleRecord, ItemRecord, ResponseItemInsert, ResponseRecord};

fn json(text: &str) -> Json {
    parse_json(text).unwrap()
}

fn target() -> TargetSnapshot {
    TargetSnapshot {
        target_id: "route-a:provider-a:10".to_string(),
        provider_id: "provider-a".to_string(),
        provider_name: "Provider A".to_string(),
        provider_base_url: "https://api.example.com/v1/".to_string(),
        provider_auth_mode: "managed".to_string(),
        provider_api_key: Some("k1".to_string()),
        state_scope: Some("scope-a".to_string()),
        upstream_model: "gpt-upstream".to_string(),
        configured_wire_api: WireApi::Responses,
        priority: 10,
        context_window_tokens: None,
        max_output_tokens: None,
        context_safety_margin_tokens: None,
        context_overflow_policy: "reject".to_string(),
    }
}

fn route() -> RouteSnapshot {
    RouteSnapshot {
        route_id: "route-a".to_string(),
        downstream_model: "codex-main".to_string(),
        targets: Vec::new(),
    }
}

fn resolved() -> ResolvedTargetProtocol {
    ResolvedTargetProtocol {
        wire_api: WireApi::Responses,
        credential_hash: "hash-k1".to_string(),
        tool_support_known: false,
        supports_tools: false,
    }
}

fn usage() -> ResponseUsage {
    ResponseUsage { input_tokens: 7, output_tokens: 4, total_tokens: 11, reasoning_tokens: None }
}

fn text_message(text: &str) -> CanonicalOutputItem {
    CanonicalOutputItem::Message {
        role: "assistant".to_string(),
        content: vec![
            ContentBlock::Text { text: text.to_string() },
            ContentBlock::Image { data: "…".to_string() },
        ],
    }
}

fn answer() -> Vec<CanonicalEvent> {
    vec![
        CanonicalEvent::ResponseCreated { response_id: String::new() },
        CanonicalEvent::OutputItemDone { item: text_message("continued") },
        CanonicalEvent::OutputItemDone {
            item: CanonicalOutputItem::FunctionCall {
                name: "f".to_string(),
                arguments: r#"{"a":1}"#.to_string(),
            },
        },
        CanonicalEvent::OutputItemDone {
            item: CanonicalOutputItem::Reasoning { summary: vec![json(r#"{"text":"why"}"#)] },
        },
        CanonicalEvent::ResponseCompleted {
            response_id: "resp_upstream_curr".to_string(),
            usage: Some(usage()),
        },
    ]
}

fn ids(n: usize) -> Vec<ItemIds> {
    (0..n).map(|i| ItemIds { id: format!("id_{}", i), call_id: format!("call_{}", i) }).collect()
}

fn continuation() -> ContinuationContext {
    let record = ResponseRecord {
        id: "resp_mw_prev".to_string(),
        downstream_model: "codex-main".to_string(),
        provider_id: Some("provider-a".to_string()),
        upstream_model: Some("gpt-upstream".to_string()),
        wire_api: Some("responses".to_string()),
        state_scope: None,
        status: "completed".to_string(),
        usage_json: None,
        created_at: String::new(),
    };
    let message = ItemRecord {
        id: "m".to_string(),
        item_type: "message".to_string(),
        role: Some("assistant".to_string()),
        call_id: None,
        content_json: r#"[{"text":"previous answer"}]"#.to_string(),
        visible: 1,
    };
    load_continuation_context(
        &json(r#"{"previous_response_id": "resp_mw_prev"}"#),
        Ok(Some(record)),
        Ok(vec![message]),
        &vec!["c".to_string()],
        Ok(Some(HandleRecord {
            credential_hash: "hash-k1".to_string(),
            upstream_response_id: Some("resp_upstream_prev".to_string()),
        })),
    )
    .unwrap()
    .unwrap()
}

#[test]
fn lost_handle_replays_history_once() {
    let raw = json(r#"{"input": "next", "previous_response_id": "resp_upstream_prev"}"#);
    let request = parse_canonical_request("req", &raw, "codex-main", "gpt-upstream").unwrap();
    let context = continuation();
    let lost = || CallEvent::Answer { status: 404, body: b"response not found".to_vec() };
    let action = try_target(
        &request, Some(&context), None, &route(), &target(), &resolved(), false, lost(), 5,
    );
    match action {
        CallAction::Resend { request } => {
            assert_eq!(request.previous_response_id, None);
            assert_eq!(request.input.len(), 2);
            assert!(matches!(&request.input[0], CanonicalInputItem::Message { .. }));
        }
        other => panic!("{:?}", other),
    }
    let action = try_target(
        &request, Some(&context), None, &route(), &target(), &resolved(), true, lost(), 5,
    );
    assert!(matches!(action, CallAction::Fail { .. }));
}

#[test]
fn failures_are_logged_and_recorded() {
    let raw = json(r#"{"input": "next"}"#);
    let request = parse_canonical_request("req", &raw, "codex-main", "gpt-upstream").unwrap();
    let event = CallEvent::Answer { status: 429, body: b" slow down ".to_vec() };
    let action = try_target(
        &request, None, Some("key-hash"), &route(), &target(), &resolved(), false, event, 12,
    );
    let failure = match action {
        CallAction::Fail { failure } => failure,
        other => panic!("{:?}", other),
    };
    assert_eq!(failure.error.kind, ErrorKind::RateLimited);
    assert_eq!(failure.error.message, "slow down");
    assert_eq!(failure.log.status_code, Some(429));
    assert_eq!(failure.log.error_kind.as_deref(), Some("upstream_error"));
    assert_eq!(failure.log.latency_ms, Some(12));
    assert_eq!(failure.log.downstream_key_hash.as_deref(), Some("key-hash"));
    assert_eq!(failure.attempt.status, "failed");
    assert_eq!(failure.attempt.error_kind.as_deref(), Some("rate_limited"));
    assert_eq!(failure.attempt.latency_ms, Some(12));

    let event = CallEvent::NoAnswer { timed_out: true, detail: "x".to_string() };
    match try_target(&request, None, None, &route(), &target(), &resolved(), false, event, 3) {
        CallAction::Fail { failure } => {
            assert_eq!(failure.error.kind, ErrorKind::UpstreamTimeout);
            assert_eq!(failure.log.status_code, None);
            assert_eq!(failure.log.error_kind.as_deref(), Some("upstream_timeout"));
        }
        other => panic!("{:?}", other),
    }
    let event = CallEvent::Unreadable { error: UpstreamError::ProtocolNotSupported };
    match try_target(&request, None, None, &route(), &target(), &resolved(), false, event, 3) {
        CallAction::Fail { failure } => {
            assert_eq!(failure.error.kind, ErrorKind::ProtocolNotSupported);
            assert_eq!(failure.log.error_kind.as_deref(), Some("protocol_not_supported"));
        }
        other => panic!("{:?}", other),
    }
}

#[test]
fn good_answers_are_read() {
    let raw = json(r#"{"input": "next", "previous_response_id": "p"}"#);
    let request = parse_canonical_request("req", &raw, "codex-main", "gpt-upstream").unwrap();
    let event = CallEvent::Answer { status: 200, body: b"{}".to_vec() };
    match try_target(&request, None, None, &route(), &target(), &resolved(), false, event, 3) {
        CallAction::ReadBody { body } => assert_eq!(body, b"{}".to_vec()),
        other => panic!("{:?}", other),
    }
    assert_eq!(count_finished_items(&answer()), 3);
    let done = complete_attempt(
        &request, Some("key-hash"), &route(), &target(), &resolved(), &answer(), "resp_mw_1",
        &ids(3), Some("{}".to_string()), 9,
    );
    assert_eq!(done.upstream_response_id.as_deref(), Some("resp_upstream_curr"));
    assert_eq!(done.response.id, "resp_mw_1");
    assert_eq!(done.log.status_code, Some(200));
    assert_eq!(done.log.input_tokens, Some(7));
    assert_eq!(done.log.output_tokens, Some(4));
    assert_eq!(done.log.latency_ms, None);
    assert_eq!(done.log.error_kind, None);
    assert_eq!(done.attempt.status, "success");
    assert_eq!(done.attempt.latency_ms, Some(9));
    assert_eq!(done.shell.response.usage_json.as_deref(), Some("{}"));
    assert_eq!(done.shell.response.previous_response_id.as_deref(), Some("p"));
    assert_eq!(done.shell.items.len(), 3);
}

#[test]
fn answers_are_normalized() {
    let response = normalize_response_at("codex-main", &answer(), "resp_mw_1", &ids(3), 77);
    assert_eq!(response.object, "response");
    assert_eq!(response.status, "completed");
    assert_eq!(response.created_at, 77);
    assert_eq!(response.model, "codex-main");
    assert_eq!(response.usage.unwrap().total_tokens, 11);
    assert_eq!(response.output.len(), 3);
    match &response.output[0] {
        DownstreamOutputItem::Message { id, status, role, content } => {
            assert_eq!((id.as_str(), *status, role.as_str()), ("id_0", "completed", "assistant"));
            assert_eq!(content.len(), 1);
            let DownstreamContentBlock::OutputText { text, annotations } = &content[0];
            assert_eq!(text, "continued");
            assert!(annotations.is_empty());
        }
        other => panic!("{:?}", other),
    }
    match &response.output[1] {
        DownstreamOutputItem::FunctionCall { id, call_id, name, arguments, status } => {
            assert_eq!((id.as_str(), call_id.as_str()), ("id_1", "call_1"));
            assert_eq!((name.as_str(), arguments.as_str()), ("f", r#"{"a":1}"#));
            assert_eq!(*status, "completed");
        }
        other => panic!("{:?}", other),
    }
    assert!(matches!(
        &response.output[2],
        DownstreamOutputItem::Reasoning { id, summary } if id == "id_2" && summary.len() == 1
    ));
    let now = normalize_downstream_response("codex-main", &answer(), "resp_mw_1", &ids(3));
    assert!(now.created_at > 1_700_000_000);
    assert_eq!(extract_upstream_response_id(&Vec::new()), None);
}

#[test]
fn responses_are_stored_with_their_handle() {
    let response = normalize_response_at("codex-main", &answer(), "resp_mw_1", &ids(3), 77);
    let shell = persist_response_shell_as(
        "req", &route(), &target(), &resolved(), &response, Some("u".to_string()),
        &Some("up".to_string()), &None, "uh_1".to_string(),
    );
    assert_eq!(shell.response.id, "resp_mw_1");
    assert_eq!(shell.response.route_id.as_deref(), Some("route-a"));
    assert_eq!(shell.response.wire_api.as_deref(), Some("responses"));
    assert_eq!(shell.response.state_scope.as_deref(), Some("scope-a"));
    assert_eq!(shell.response.upstream_response_id.as_deref(), Some("up"));
    assert_eq!(shell.response.error_json, None);
    let handle = shell.handle.as_ref().unwrap();
    assert_eq!(handle.id, "uh_1");
    assert_eq!(handle.credential_hash, "hash-k1");
    assert_eq!(
        handle.handle_json,
        r#"{"provider_id":"provider-a","upstream_model":"gpt-upstream","upstream_response_id":"up","wire_api":"responses"}"#
    );
    let shell = persist_response_shell(
        "req", &route(), &target(), &resolved(), &response, None, &None, &None,
    );
    assert!(shell.handle.is_none());
    let shell = persist_response_shell(
        "req", &route(), &target(), &resolved(), &response, None, &Some("up".to_string()), &None,
    );
    assert!(shell.handle.unwrap().id.starts_with("uh_"));
}

fn read_back(row: ResponseItemInsert) -> ItemRecord {
    ItemRecord {
        id: row.id,
        item_type: row.item_type,
        role: row.role,
        call_id: row.call_id,
        content_json: row.content_json,
        visible: if row.visible { 1 } else { 0 },
    }
}

#[test]
fn stored_items_are_retrieved_as_they_were_shown() {
    let response = normalize_response_at("codex-main", &answer(), "resp_mw_1", &ids(3), 77);
    let rows: Vec<ResponseItemInsert> = response
        .output
        .iter()
        .enumerate()
        .map(|(i, item)| persist_response_item("resp_mw_1", i as i64, item))
        .collect();
    assert_eq!(rows[0].item_type, "message");
    assert_eq!(rows[0].sequence, 0);
    assert_eq!(rows[1].content_json, r#"{"arguments":"{\"a\":1}","name":"f"}"#);
    assert_eq!(rows[1].call_id.as_deref(), Some("call_1"));
    assert!(rows[0].visible && rows[1].visible && !rows[2].visible);
    let output = items_to_output(&rows.into_iter().map(read_back).collect()).unwrap();
    assert_eq!(format!("{:?}", output), format!("{:?}", response.output));
}

fn stored_response() -> ResponseRecord {
    ResponseRecord {
        id: "resp_mw_1".to_string(),
        downstream_model: "codex-main".to_string(),
        provider_id: None,
        upstream_model: None,
        wire_api: None,
        state_scope: None,
        status: "completed".to_string(),
        usage_json: None,
        created_at: "2024-01-01T00:00:01+01:00".to_string(),
    }
}

#[test]
fn responses_are_retrieved() {
    let payload = load_response_payload(
        "resp_mw_1",
        Ok(Some(stored_response())),
        Ok(Vec::new()),
        Some(usage()),
    )
    .unwrap();
    assert_eq!(payload.id, "resp_mw_1");
    assert_eq!(payload.object, "response");
    assert_eq!(payload.created_at, 1_704_063_601);
    assert_eq!(payload.model, "codex-main");
    assert!(payload.output.is_empty());
    assert_eq!(payload.usage.unwrap().input_tokens, 7);
    let mut unreadable = stored_response();
    unreadable.created_at = "yesterday".to_string();
    let payload =
        load_response_payload_at("resp_mw_1", Ok(Some(unreadable)), Ok(Vec::new()), None, 5).unwrap();
    assert_eq!(payload.created_at, 5);
    let error = find_response("r", Ok(None)).unwrap_err();
    assert_eq!(error.kind, ErrorKind::StateNotFound);
    assert_eq!(error.message, "Response 'r' was not found");
    let error = find_response("r", Err("gone".to_string())).unwrap_err();
    assert_eq!(error.message, "Failed to read response state: gone");
    let error = load_response_payload("r", Ok(Some(stored_response())), Err("i".to_string()), None);
    assert_eq!(error.unwrap_err().message, "Failed to load response items: i");
}

#[test]
fn items_are_shown_as_input() {
    let item = |item_type: &str, content: &str| ItemRecord {
        id: "i".to_string(),
        item_type: item_type.to_string(),
        role: None,
        call_id: None,
        content_json: content.to_string(),
        visible: 1,
    };
    let items = vec![
        item("input_message", "[]"),
        item("function_call_output", r#"{"output":"o"}"#),
        item("input_function_call", "broken"),
        item("message", "broken"),
        item("function_call", r#"{"name":"f","arguments":"a"}"#),
        item("reasoning", "broken"),
        item("audio", "raw"),
    ];
    let shown = get_response_input_items("r", Ok(Some(stored_response())), Ok(items)).unwrap();
    let texts: Vec<String> = shown.iter().map(render_json).collect();
    assert_eq!(
        texts,
        vec![
            r#"{"content":[],"id":"i","role":"user","type":"message"}"#,
            r#"{"call_id":"","id":"i","output":"o","type":"function_call_output"}"#,
            r#"{"arguments":"{}","call_id":"","id":"i","name":"","type":"function_call"}"#,
            r#"{"content":[],"id":"i","role":"assistant","type":"message"}"#,
            r#"{"arguments":"a","call_id":"","id":"i","name":"f","type":"function_call"}"#,
            r#"{"id":"i","summary":[],"type":"reasoning"}"#,
            r#"{"content":"raw","id":"i","type":"audio"}"#,
        ]
    );
    let error = get_response_input_items("r", Ok(Some(stored_response())), Err("x".to_string()));
    assert_eq!(error.unwrap_err().message, "Failed to load response input items: x");
    for content in ["{}", r#"{"$serde_json::private::RawValue":"[{\"text\":\"x\"}]"}"#] {
        let broken = vec![ItemRecord {
            id: "i".to_string(),
            item_type: "message".to_string(),
            role: None,
            call_id: None,
            content_json: content.to_string(),
            visible: 1,
        }];
        let error = items_to_output(&broken).unwrap_err();
        assert_eq!(error.kind, ErrorKind::StateReplayFailed);
        assert!(error.message.starts_with("Invalid message content in persisted state: "));
    }
}

#[test]
fn upstream_failures_are_mapped() {
    let kinds = [
        (400, ErrorKind::RequestInvalid),
        (401, ErrorKind::AuthFailed),
        (403, ErrorKind::AuthFailed),
        (404, ErrorKind::UpstreamUnavailable),
        (429, ErrorKind::RateLimited),
        (500, ErrorKind::UpstreamUnavailable),
        (504, ErrorKind::UpstreamTimeout),
        (599, ErrorKind::UpstreamUnavailable),
    ];
    for (status, kind) in kinds {
        assert_eq!(map_upstream_status(status, &b"m".to_vec()).kind, kind);
    }
    assert_eq!(redacted_upstream_error(&b" \n ".to_vec()), "Upstream returned an error");
    assert_eq!(redacted_upstream_error(&vec![b'x'; 600]).len(), 512);
    assert_eq!(redacted_upstream_error(&vec![0xff, b'a']), "\u{fffd}a");
    assert_eq!(map_reqwest_error(true, "d").message, "Upstream request timed out");
    assert_eq!(map_reqwest_error(false, "d").message, "Upstream request failed: d");
    let error = map_adapter_error(UpstreamError::HttpError { status: 401, message: "no".to_string() });
    assert_eq!((error.kind, error.message.as_str()), (ErrorKind::AuthFailed, "no"));
    assert_eq!(map_adapter_error(UpstreamError::Timeout).message, "Upstream adapter timed out");
    for error in [
        UpstreamError::ConnectionError("c".to_string()),
        UpstreamError::ParseError("c".to_string()),
        UpstreamError::InvalidResponse("c".to_string()),
    ] {
        let error = map_adapter_error(error);
        assert_eq!((error.kind, error.message.as_str()), (ErrorKind::UpstreamUnavailable, "c"));
    }
    assert_eq!(join_url("https://a//", "//b/c"), "https://a/b/c");
    assert_eq!(join_url("https://a", "b"), "https://a/b");
}

#[test]
fn calls_are_logged() {
    let entry = log_missing_key("req", &route(), &target());
    assert_eq!(entry.status_code, Some(500));
    assert_eq!(entry.error_kind.as_deref(), Some("provider_key_missing"));
    assert_eq!(entry.wire_api, None);
    let entry = log_call(
        "req", None, &route(), &target(), Some(WireApi::Anthropic), None, None, None, Some(usage()),
    );
    assert_eq!(entry.wire_api.as_deref(), Some("anthropic"));
    assert_eq!(entry.input_tokens, Some(7));
    let attempt = build_routing_attempt(
        &target(), &resolved(), "failed", Some(ErrorKind::AuthFailed), None,
    );
    assert_eq!(attempt.error_kind.as_deref(), Some("auth_failed"));
    assert_eq!(attempt.target_id, "route-a:provider-a:10");
    assert_eq!(attempt.wire_api, "responses");
}
