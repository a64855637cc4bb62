use modelwire_server::canonical::{CanonicalResponseRequest, ResponseUsage, WireApi};
use modelwire_server::json::{parse_json, render_json, Json};
use modelwire_server::relay::archive::{
    archive_hash_salt, archive_hints, archive_response, archive_successful_response,
    archive_successful_response_at, conversation_messages_for_capture_mode, conversation_tools,
    effective_capture_mode, parse_capture_mode, provider_config_text, redaction_inputs, should_archive,
    stable_hash_text, ArchiveDigests, ArchivePersistHints, CaptureMode, Redaction,
};
use modelwire_server::relay::attempt::{build_routing_attempt, RoutingAttempt};
use modelwire_server::relay::context::ResolvedTargetProtocol;
use modelwire_server::relay::request::parse_canonical_request;
use modelwire_server::relay::response::{
    DownstreamContentBlock, DownstreamOutputItem, DownstreamResponse,
};
use modelwire_server::relay::target::{RouteSnapshot, TargetSnapshot};

fn json(text: &str) -> Json {
    parse_json(text).unwrap()
}

fn target() -> TargetSnapshot {
    TargetSnapshot {
        target_id: "route-a:provider-a:10".to_string(),
        provider_id: "provider-a".to_string(),
        provider_name: "Provider A".to_string(),
        provider_base_url: "https://api.example.com/v1".to_string(),
        provider_auth_mode: "managed".to_string(),
        provider_api_key: None,
        state_scope: None,
        upstream_model: "gpt-upstream".to_string(),
        configured_wire_api: WireApi::Auto,
        priority: 10,
        context_window_tokens: None,
        max_output_tokens: None,
        context_safety_margin_tokens: None,
        context_overflow_policy: "reject".to_string(),
    }
}

fn route() -> RouteSnapshot {
    RouteSnapshot {
        route_id: "route-a".to_string(),
        downstream_model: "codex-main".to_string(),
        targets: Vec::new(),
    }
}

fn resolved() -> ResolvedTargetProtocol {
    ResolvedTargetProtocol {
        wire_api: WireApi::Responses,
        credential_hash: "h".to_string(),
        tool_support_known: false,
        supports_tools: false,
    }
}

fn request(text: &str) -> CanonicalResponseRequest {
    parse_canonical_request("req", &json(text), "codex-main", "gpt-upstream").unwrap()
}

fn response(output: Vec<DownstreamOutputItem>) -> DownstreamResponse {
    DownstreamResponse {
        id: "resp_mw_1".to_string(),
        object: "response",
        created_at: 1,
        model: "codex-main".to_string(),
        status: "completed",
        output,
        usage: Some(ResponseUsage {
            input_tokens: 7,
            output_tokens: 4,
            total_tokens: 11,
            reasoning_tokens: None,
        }),
    }
}

fn said(text: &str) -> DownstreamOutputItem {
    DownstreamOutputItem::Message {
        id: "m".to_string(),
        status: "completed",
        role: "assistant".to_string(),
        content: vec![DownstreamContentBlock::OutputText {
            text: text.to_string(),
            annotations: Vec::new(),
        }],
    }
}

fn called(arguments: &str) -> DownstreamOutputItem {
    DownstreamOutputItem::FunctionCall {
        id: "f".to_string(),
        call_id: "call_1".to_string(),
        name: "tool".to_string(),
        arguments: arguments.to_string(),
        status: "completed",
    }
}

fn redact(texts: Vec<String>) -> Vec<Redaction> {
    texts
        .into_iter()
        .map(|original| Redaction {
            text: original.replace("sk-secret", "[REDACTED]"),
            redaction_count: original.matches("sk-secret").count(),
            original,
        })
        .collect()
}

fn captured(request: &CanonicalResponseRequest, response: &DownstreamResponse, mode: CaptureMode) -> (Vec<String>, String) {
    let redactions = redact(redaction_inputs(request, response, mode));
    let (messages, status) =
        conversation_messages_for_capture_mode(request, response, mode, &redactions);
    let shown = messages
        .iter()
        .map(|message| {
            let content: Vec<String> = message.content.iter().map(render_json).collect();
            format!("{} {}", message.role, content.join(" "))
        })
        .collect();
    (shown, status)
}

#[test]
fn only_redactions_are_archived() {
    let request = request(r#"{"input": "my token is sk-secret"}"#);
    let response = response(vec![said("assistant says sk-secret")]);
    let (messages, status) = captured(&request, &response, CaptureMode::VisibleOnly);
    assert_eq!(
        messages,
        vec![
            r#"user {"text":"my token is [REDACTED]","type":"text"}"#,
            r#"assistant {"text":"assistant says [REDACTED]","type":"text"}"#,
        ]
    );
    assert_eq!(status, "redacted");
}

#[test]
fn metadata_holds_no_messages() {
    let request = request(r#"{"input": "not this"}"#);
    let response = response(vec![said("nor this sk-secret")]);
    let (messages, status) = captured(&request, &response, CaptureMode::MetadataOnly);
    assert!(messages.is_empty());
    assert_eq!(status, "clean");
    assert!(redaction_inputs(&request, &response, CaptureMode::MetadataOnly).is_empty());
}

#[test]
fn tools_are_kept_in_full_or_in_summary() {
    let long = "x".repeat(300);
    let request = request(&format!(
        r#"{{"input": [
            {{"type": "message", "role": "user", "content": [{{"type": "input_text", "text": "run tool"}}]}},
            {{"type": "function_call_output", "call_id": "call_tool_1", "output": "{}"}}
        ]}}"#,
        long
    ));
    let response = response(vec![
        DownstreamOutputItem::Reasoning { id: "r".to_string(), summary: vec![json(r#""hidden""#)] },
        called(&long),
    ]);
    let (full, status) = captured(&request, &response, CaptureMode::FullVisible);
    assert_eq!(full.len(), 3);
    assert_eq!(full[0], r#"user {"text":"run tool","type":"text"}"#);
    assert_eq!(
        full[1],
        format!(r#"tool {{"call_id":"call_tool_1","output":"{}","type":"tool_result"}}"#, long)
    );
    assert_eq!(
        full[2],
        format!(r#"assistant {{"arguments":"{}","call_id":"call_1","name":"tool","type":"tool_call"}}"#, long)
    );
    assert_eq!(status, "clean");
    let short = "x".repeat(256);
    let (summary, _) = captured(&request, &response, CaptureMode::VisibleOnly);
    assert_eq!(
        summary[1],
        format!(r#"tool {{"call_id":"call_tool_1","summary":"{}","type":"tool_result_summary"}}"#, short)
    );
    assert_eq!(
        summary[2],
        format!(r#"assistant {{"arguments_summary":"{}","call_id":"call_1","name":"tool","type":"tool_call_summary"}}"#, short)
    );
}

fn hints(attempts: Vec<RoutingAttempt>) -> ArchivePersistHints {
    ArchivePersistHints {
        capture_mode_override: None,
        winning_attempt_index: attempts.len() as u32 - 1,
        routing_attempts: attempts,
    }
}

fn digests() -> ArchiveDigests {
    ArchiveDigests {
        provider_base_url: "d1".to_string(),
        provider_config: "d2".to_string(),
        upstream_response_id: "d3".to_string(),
    }
}

#[test]
fn conversations_keep_their_lineage() {
    let request = request(r#"{"input": "hi", "previous_response_id": "resp_mw_0", "tools": [{"name": "t"}]}"#);
    let response = response(vec![said("hello")]);
    let mode = CaptureMode::VisibleOnly;
    let redactions = redact(redaction_inputs(&request, &response, mode));
    let attempts = vec![
        build_routing_attempt(&target(), &resolved(), "failed", None, None),
        build_routing_attempt(&target(), &resolved(), "success", None, Some(3)),
    ];
    let record = archive_successful_response_at(
        "2024-01-01T00:00:00+00:00".to_string(),
        &request,
        &route(),
        &target(),
        &resolved(),
        &response,
        mode,
        hints(attempts),
        &digests(),
        &redactions,
    );
    assert_eq!(record.schema, "modelwire.conversation.v1");
    assert_eq!(record.conversation_id, "conv_resp_mw_1");
    assert_eq!(record.root_response_id, "resp_mw_1");
    assert_eq!(record.created_at, "2024-01-01T00:00:00+00:00");
    assert_eq!(record.capture_mode, "visible_only");
    assert_eq!(record.provider_id, "provider-a");
    assert_eq!(record.provider_base_url_hash, "sha256:d1");
    assert_eq!(record.provider_config_hash, "sha256:d2");
    assert_eq!(record.upstream_response_id_hash, "sha256:d3");
    assert_eq!(record.previous_response_id.as_deref(), Some("resp_mw_0"));
    assert_eq!(record.fallback_attempt, 1);
    assert!(record.had_fallback);
    assert_eq!(record.attempts.len(), 2);
    assert_eq!(record.state_scope, "");
    assert_eq!(record.wire_api, "auto");
    assert_eq!(record.detected_wire_api, "responses");
    assert_eq!(record.tools, vec!["t".to_string()]);
    assert_eq!((record.input_tokens, record.output_tokens, record.reasoning_tokens), (7, 4, 0));
    assert_eq!(record.messages.len(), 2);
    assert_eq!(record.redaction_status, "clean");
    assert_eq!(record.redaction_policy, "default");
    let record = archive_successful_response(
        &request,
        &route(),
        &target(),
        &resolved(),
        &response,
        mode,
        hints(vec![build_routing_attempt(&target(), &resolved(), "success", None, None)]),
        &digests(),
        &redactions,
    );
    assert!(!record.had_fallback && !record.had_error);
    assert!(record.created_at.contains('T') && record.created_at.len() >= 25);
}

#[test]
fn capture_modes_are_read() {
    assert_eq!(parse_capture_mode(" Visible_Only "), CaptureMode::VisibleOnly);
    assert_eq!(parse_capture_mode("debug_raw"), CaptureMode::DebugRaw);
    assert_eq!(parse_capture_mode("everything"), CaptureMode::Off);
    assert_eq!(
        effective_capture_mode(&Some("metadata_only".to_string()), "off"),
        CaptureMode::MetadataOnly
    );
    assert_eq!(effective_capture_mode(&None, "full_visible"), CaptureMode::FullVisible);
    for mode in [
        CaptureMode::Off,
        CaptureMode::MetadataOnly,
        CaptureMode::VisibleOnly,
        CaptureMode::FullVisible,
        CaptureMode::DebugRaw,
    ] {
        assert_eq!(parse_capture_mode(mode.as_str()), mode);
    }
}

#[test]
fn raw_archives_stay_private() {
    assert_eq!(should_archive(CaptureMode::Off, "127.0.0.1:1"), Ok(false));
    assert_eq!(should_archive(CaptureMode::VisibleOnly, "0.0.0.0:1"), Ok(true));
    assert_eq!(should_archive(CaptureMode::DebugRaw, "127.0.0.1:1"), Ok(true));
    assert_eq!(
        should_archive(CaptureMode::DebugRaw, "0.0.0.0:8787"),
        Err("debug_raw archive mode is not allowed on public bind".to_string())
    );
}

#[test]
fn hashes_are_marked() {
    assert_eq!(stable_hash_text("abc"), "sha256:abc");
    assert_eq!(archive_hash_salt(&None), "modelwire-archive-default-secret");
    assert_eq!(provider_config_text(&target(), &resolved()), "provider-a|managed|responses");
    assert!(conversation_tools(&request(r#"{"input": "x"}"#)).is_empty());
}

#[test]
fn settings_decide_what_is_archived() {
    let request = request(r#"{"input": "hi"}"#);
    let response = response(vec![said("hello")]);
    let archived = |configured: &str, bind: &str| {
        let redactions = redact(redaction_inputs(&request, &response, CaptureMode::VisibleOnly));
        archive_response(
            &request,
            &route(),
            &target(),
            &resolved(),
            &response,
            configured,
            bind,
            hints(vec![build_routing_attempt(&target(), &resolved(), "success", None, None)]),
            &digests(),
            &redactions,
        )
    };
    assert!(archived("off", "127.0.0.1:1").unwrap().is_none());
    assert_eq!(
        archived("debug_raw", "0.0.0.0:1").unwrap_err(),
        "debug_raw archive mode is not allowed on public bind"
    );
    let record = archived("visible_only", "0.0.0.0:1").unwrap().unwrap();
    assert_eq!(record.capture_mode, "visible_only");
    assert_eq!(record.messages.len(), 2);
}

#[test]
fn last_attempt_is_the_one_that_served() {
    let attempt = || build_routing_attempt(&target(), &resolved(), "failed", None, None);
    let hints = archive_hints(Some("off".to_string()), vec![attempt(), attempt(), attempt()]);
    assert_eq!(hints.winning_attempt_index, 2);
    assert_eq!(hints.routing_attempts.len(), 3);
    assert_eq!(hints.capture_mode_override.as_deref(), Some("off"));
    assert_eq!(archive_hints(None, Vec::new()).winning_attempt_index, 0);
}
