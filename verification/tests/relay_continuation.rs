use modelwire_server::canonical::{CanonicalInputItem, ContentBlock, WireApi};
use modelwire_server::error::ErrorKind;
use modelwire_server::json::{parse_json, Json};
use modelwire_server::relay::continuation::{
    apply_continuation_to_canonical, can_send_upstream_previous_response_id,
    extract_known_call_ids, load_continuation_context, parse_output_content_json_to_blocks,
    replay_input_for_canonical, should_retry_with_replay_on_missing_handle, to_replay_input_items,
    validate_tool_result_ids, ContinuationContext,
};
use modelwire_server::relay::request::parse_canonical_request;
use modelwire_server::relay::target::TargetSnapshot;
use modelwire_server::store::{HandleRecord, ItemRecord, ResponseRecord};

fn json(text: &str) -> Json {
    parse_json(text).unwrap()
}

fn target() -> TargetSnapshot {
    TargetSnapshot {
        target_id: "route-a:provider-a:10".to_string(),
        provider_id: "provider-a".to_string(),
        provider_name: "Provider A".to_string(),
        provider_base_url: "https://api.example.com".to_string(),
        provider_auth_mode: "managed".to_string(),
        provider_api_key: Some("k1".to_string()),
        state_scope: Some("scope-a".to_string()),
        upstream_model: "gpt-upstream".to_string(),
        configured_wire_api: WireApi::Responses,
        priority: 10,
        context_window_tokens: None,
        max_output_tokens: None,
        context_safety_margin_tokens: None,
        context_overflow_policy: "reject".to_string(),
    }
}

fn item(item_type: &str, call_id: Option<&str>, content_json: &str, visible: i64) -> ItemRecord {
    ItemRecord {
        id: "item".to_string(),
        item_type: item_type.to_string(),
        role: None,
        call_id: call_id.map(|id| id.to_string()),
        content_json: content_json.to_string(),
        visible,
    }
}

fn previous() -> ResponseRecord {
    ResponseRecord {
        id: "resp_mw_prev".to_string(),
        downstream_model: "codex-main".to_string(),
        provider_id: Some("provider-a".to_string()),
        upstream_model: Some("gpt-upstream".to_string()),
        wire_api: Some("responses".to_string()),
        state_scope: Some("scope-a".to_string()),
        status: "completed".to_string(),
        usage_json: None,
        created_at: "2024-01-01T00:00:00Z".to_string(),
    }
}

fn raw() -> Json {
    json(r#"{"model": "codex-main", "input": "next", "previous_response_id": "resp_mw_prev"}"#)
}

fn continuation() -> ContinuationContext {
    load_continuation_context(
        &raw(),
        Ok(Some(previous())),
        Ok(vec![
            item("message", None, r#"[{"type":"output_text","text":"previous answer"}]"#, 1),
            item("function_call", Some("call_known"), r#"{"arguments":"{}","name":"f"}"#, 1),
        ]),
        &vec!["c0".to_string(), "c1".to_string()],
        Ok(Some(HandleRecord {
            credential_hash: "hash-k1".to_string(),
            upstream_response_id: Some("resp_upstream_prev".to_string()),
        })),
    )
    .unwrap()
    .unwrap()
}

#[test]
fn unknown_previous_response_is_reported() {
    let error = load_continuation_context(
        &json(r#"{"previous_response_id": "resp_mw_not_exists"}"#),
        Ok(None),
        Ok(Vec::new()),
        &Vec::new(),
        Ok(None),
    )
    .unwrap_err();
    assert_eq!(error.kind, ErrorKind::StateNotFound);
    assert_eq!(error.message, "previous_response_id 'resp_mw_not_exists' was not found");
}

#[test]
fn failing_stores_are_reported() {
    let fresh = Vec::new();
    let error = load_continuation_context(&raw(), Err("x".to_string()), Ok(Vec::new()), &fresh, Ok(None));
    assert_eq!(error.unwrap_err().message, "Failed to load previous response state: x");
    let error =
        load_continuation_context(&raw(), Ok(Some(previous())), Err("y".to_string()), &fresh, Ok(None));
    assert_eq!(error.unwrap_err().message, "Failed to load previous response items: y");
    let error =
        load_continuation_context(&raw(), Ok(Some(previous())), Ok(Vec::new()), &fresh, Err("z".to_string()));
    assert_eq!(error.unwrap_err().message, "Failed to load previous upstream handle: z");
}

#[test]
fn requests_that_continue_nothing_have_no_history() {
    let none = load_continuation_context(
        &json(r#"{"previous_response_id": 5}"#),
        Ok(None),
        Ok(Vec::new()),
        &Vec::new(),
        Ok(None),
    );
    assert!(none.unwrap().is_none());
    let request = parse_canonical_request("r", &raw(), "d", "u").unwrap();
    assert_eq!(replay_input_for_canonical(&request, None).len(), 1);
}

#[test]
fn history_comes_before_new_input() {
    let context = continuation();
    assert_eq!(context.previous_wire_api, Some(WireApi::Responses));
    assert_eq!(context.known_call_ids, vec!["call_known".to_string()]);
    let mut request = parse_canonical_request("r", &raw(), "d", "u").unwrap();
    apply_continuation_to_canonical(&mut request, Some(&context), &target(), "hash-k1").unwrap();
    assert_eq!(request.previous_response_id.as_deref(), Some("resp_upstream_prev"));
    assert_eq!(request.input.len(), 3);
    match &request.input[0] {
        CanonicalInputItem::Message { role, content } => {
            assert_eq!(role, "assistant");
            assert!(matches!(&content[0], ContentBlock::Text { text } if text == "previous answer"));
        }
        other => panic!("{:?}", other),
    }
    assert!(matches!(
        &request.input[1],
        CanonicalInputItem::FunctionCallOutput { call_id, output } if call_id == "call_known" && output == "{}"
    ));
    assert!(matches!(&request.input[2], CanonicalInputItem::Text { content } if content == "next"));
}

#[test]
fn handles_stay_where_they_were_made() {
    let context = continuation();
    assert!(can_send_upstream_previous_response_id(&context, &target(), "hash-k1"));
    assert!(!can_send_upstream_previous_response_id(&context, &target(), "hash-k2"));
    let mut other = target();
    other.provider_id = "provider-b".to_string();
    assert!(!can_send_upstream_previous_response_id(&context, &other, "hash-k1"));
    let mut other = target();
    other.upstream_model = "gpt-other".to_string();
    assert!(!can_send_upstream_previous_response_id(&context, &other, "hash-k1"));
    let mut other = target();
    other.configured_wire_api = WireApi::Anthropic;
    assert!(!can_send_upstream_previous_response_id(&context, &other, "hash-k1"));
    other.configured_wire_api = WireApi::Auto;
    assert!(can_send_upstream_previous_response_id(&context, &other, "hash-k1"));
    let mut request = parse_canonical_request("r", &raw(), "d", "u").unwrap();
    apply_continuation_to_canonical(&mut request, Some(&context), &target(), "hash-k2").unwrap();
    assert_eq!(request.previous_response_id, None);
    let mut empty = continuation();
    empty.previous_upstream_handle = Some(String::new());
    assert!(!can_send_upstream_previous_response_id(&empty, &target(), "hash-k1"));
}

#[test]
fn unknown_tool_results_are_refused() {
    let raw = json(
        r#"{"input": [{"type": "function_call_output", "call_id": "call_unknown", "output": "{\"ok\":true}"}]}"#,
    );
    let mut request = parse_canonical_request("r", &raw, "d", "u").unwrap();
    let context = continuation();
    assert!(validate_tool_result_ids(&request, &context).is_err());
    let error =
        apply_continuation_to_canonical(&mut request, Some(&context), &target(), "hash-k1").unwrap_err();
    assert_eq!(error.kind, ErrorKind::ToolMappingFailed);
    assert_eq!(error.message, "Unknown tool result call_id 'call_unknown'");
    assert!(apply_continuation_to_canonical(&mut request, None, &target(), "hash-k1").is_ok());
}

#[test]
fn stored_items_are_replayed() {
    let items = vec![
        item("message", None, r#"[{"text":"hidden"}]"#, 0),
        item("reasoning", None, "[]", 0),
        item("message", None, r#"[{"image":1}]"#, 1),
        item("function_call", None, "not json", 1),
        item("message", None, r#"{"text":"single"}"#, 1),
        item("message", None, r#""bare""#, 1),
    ];
    let fresh: Vec<String> = (0..6).map(|i| format!("fresh_{}", i)).collect();
    let replay = to_replay_input_items(&items, &fresh).unwrap();
    assert_eq!(replay.len(), 3);
    assert!(matches!(
        &replay[0],
        CanonicalInputItem::FunctionCallOutput { call_id, output } if call_id == "fresh_3" && output == "{}"
    ));
    assert!(extract_known_call_ids(&items).is_empty());
    let error = to_replay_input_items(&vec![item("audio", None, "", 1)], &fresh).unwrap_err();
    assert_eq!(error.kind, ErrorKind::StateReplayFailed);
    assert_eq!(error.message, "Unsupported persisted item type 'audio' in replay chain");
    assert_eq!(parse_output_content_json_to_blocks(&json("17")).len(), 0);
}

#[test]
fn lost_handles_are_recognized() {
    let mut request = parse_canonical_request("r", &raw(), "d", "u").unwrap();
    let lost = b"Response NOT found".to_vec();
    assert!(should_retry_with_replay_on_missing_handle(404, &lost, &request));
    assert!(should_retry_with_replay_on_missing_handle(400, &b"bad previous_response_id".to_vec(), &request));
    assert!(should_retry_with_replay_on_missing_handle(404, &b"State not found".to_vec(), &request));
    assert!(!should_retry_with_replay_on_missing_handle(500, &lost, &request));
    assert!(!should_retry_with_replay_on_missing_handle(404, &b"no".to_vec(), &request));
    request.previous_response_id = None;
    assert!(!should_retry_with_replay_on_missing_handle(404, &lost, &request));
}
