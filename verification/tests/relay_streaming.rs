use modelwire_server::canonical::{
    CanonicalEvent, CanonicalOutputItem, ContentBlock, ResponseUsage, WireApi,
};
use modelwire_server::error::{Error, ErrorKind};
use modelwire_server::json::{parse_json, render_json};
use modelwire_server::relay::context::ResolvedTargetProtocol;
use modelwire_server::relay::request::parse_canonical_request;
use modelwire_server::relay::response::ItemIds;
use modelwire_server::relay::streaming::{
    check_stream_answer, duration_from_secs_option, event_is_semantic, is_done_marker,
    next_stream_deadline, saturating_remaining, stream_timeout_error, streaming_request,
    FinishedStream, StreamRelay, StreamSignal, StreamStep, StreamTimeoutKind,
};
use modelwire_server::relay::target::{RouteSnapshot, TargetSnapshot};
use modelwire_server::relay::upstream::UpstreamError;

fn target() -> TargetSnapshot {
    TargetSnapshot {
        target_id: "route-a:provider-a:10".to_string(),
        provider_id: "provider-a".to_string(),
        provider_name: "Provider A".to_string(),
        provider_base_url: "https://api.example.com/v1".to_string(),
        provider_auth_mode: "managed".to_string(),
        provider_api_key: None,
        state_scope: None,
        upstream_model: "gpt-upstream".to_string(),
        configured_wire_api: WireApi::Responses,
        priority: 10,
        context_window_tokens: None,
        max_output_tokens: None,
        context_safety_margin_tokens: None,
        context_overflow_policy: "reject".to_string(),
    }
}

fn route() -> RouteSnapshot {
    RouteSnapshot {
        route_id: "route-a".to_string(),
        downstream_model: "codex-main".to_string(),
        targets: Vec::new(),
    }
}

fn resolved() -> ResolvedTargetProtocol {
    ResolvedTargetProtocol {
        wire_api: WireApi::Responses,
        credential_hash: "h".to_string(),
        tool_support_known: false,
        supports_tools: false,
    }
}

fn created() -> StreamSignal {
    StreamSignal::Frame {
        event: Some(CanonicalEvent::ResponseCreated { response_id: "resp_upstream".to_string() }),
    }
}

fn bad_frame() -> StreamSignal {
    StreamSignal::BadFrame { error: UpstreamError::ParseError("invalid_json".to_string()) }
}

fn ids(n: usize) -> Vec<ItemIds> {
    (0..n).map(|i| ItemIds { id: format!("id_{}", i), call_id: format!("call_{}", i) }).collect()
}

fn finish(relay: &StreamRelay, n: usize) -> Result<FinishedStream, Error> {
    let raw = parse_json(r#"{"input": "hello", "stream": true}"#).unwrap();
    let request = parse_canonical_request("req", &raw, "codex-main", "gpt-upstream").unwrap();
    relay.finish(&request, &route(), &target(), &resolved(), "resp_mw_1", &ids(n), None)
}

#[test]
fn failure_before_commit_gives_up() {
    let mut relay = StreamRelay::new();
    let step = relay.advance(StreamSignal::Frame { event: None });
    assert!(matches!(step, StreamStep::Continue { forward: false }));
    let step = relay.advance(StreamSignal::Frame { event: Some(CanonicalEvent::Other) });
    assert!(matches!(step, StreamStep::Continue { .. }));
    let step = relay.advance(StreamSignal::TimedOut {
        kind: StreamTimeoutKind::Idle,
        idle_secs: 1,
        max_secs: 30,
    });
    match step {
        StreamStep::GiveUp { error } => {
            assert_eq!(error.kind, ErrorKind::UpstreamTimeout);
            assert_eq!(error.message, "Upstream stream idle timeout after 1s");
        }
        other => panic!("{:?}", other),
    }
}

#[test]
fn failure_after_commit_is_sent_downstream() {
    let mut relay = StreamRelay::new();
    assert!(matches!(relay.advance(created()), StreamStep::Continue { forward: true }));
    assert!(matches!(relay.advance(bad_frame()), StreamStep::Stop));
    assert_eq!(relay.events().len(), 1);
    let done = finish(&relay, 0).unwrap();
    assert_eq!(
        done.failure_frame.as_ref().map(render_json).as_deref(),
        Some(r#"{"error":{"code":"upstream_unavailable","message":"invalid_json","type":"upstream_unavailable"}}"#)
    );
    assert_eq!(done.response.id, "resp_mw_1");
    assert_eq!(done.shell.response.upstream_response_id.as_deref(), Some("resp_upstream"));
}

#[test]
fn long_streams_are_cut_after_commit() {
    let mut relay = StreamRelay::new();
    relay.advance(created());
    let step = relay.advance(StreamSignal::TimedOut {
        kind: StreamTimeoutKind::MaxDuration,
        idle_secs: 10,
        max_secs: 1,
    });
    assert!(matches!(step, StreamStep::Stop));
    let frame = finish(&relay, 0).unwrap().failure_frame.unwrap();
    assert_eq!(
        frame.get("error").unwrap().get_str("message"),
        Some("Upstream stream exceeded max duration 1s")
    );
}

#[test]
fn whole_streams_are_kept() {
    let mut relay = StreamRelay::new();
    relay.advance(created());
    relay.advance(StreamSignal::Frame {
        event: Some(CanonicalEvent::OutputItemDone {
            item: CanonicalOutputItem::Message {
                role: "assistant".to_string(),
                content: vec![ContentBlock::Text { text: "ok".to_string() }],
            },
        }),
    });
    relay.advance(StreamSignal::Frame {
        event: Some(CanonicalEvent::ResponseCompleted {
            response_id: "resp_upstream".to_string(),
            usage: Some(ResponseUsage {
                input_tokens: 1,
                output_tokens: 2,
                total_tokens: 3,
                reasoning_tokens: None,
            }),
        }),
    });
    assert!(matches!(relay.advance(StreamSignal::End), StreamStep::Stop));
    let done = finish(&relay, 1).unwrap();
    assert!(done.failure_frame.is_none());
    assert_eq!(done.response.output.len(), 1);
    assert_eq!(done.response.usage.unwrap().total_tokens, 3);
    assert_eq!(done.shell.items.len(), 1);
}

#[test]
fn streams_without_content_are_unavailable() {
    let mut relay = StreamRelay::new();
    relay.advance(StreamSignal::End);
    let error = finish(&relay, 0).unwrap_err();
    assert_eq!(error.kind, ErrorKind::UpstreamUnavailable);
    assert_eq!(error.message, "Upstream stream ended before first semantic event");
    let mut relay = StreamRelay::new();
    let step = relay.advance(StreamSignal::Broken { timed_out: false, detail: "reset".to_string() });
    assert!(matches!(step, StreamStep::GiveUp { error } if error.message == "Upstream request failed: reset"));
}

#[test]
fn deadlines_respect_both_limits() {
    assert_eq!(duration_from_secs_option(0), None);
    let second = duration_from_secs_option(1).unwrap();
    let idle = Some(10 * second);
    let max = Some(30 * second);
    let (wait, kind) = next_stream_deadline(5 * second, second, idle, max).unwrap();
    assert_eq!(wait, 9 * second);
    assert!(matches!(kind, StreamTimeoutKind::Idle));
    let (wait, kind) = next_stream_deadline(25 * second, 5 * second, idle, max).unwrap();
    assert_eq!(wait, 5 * second);
    assert!(matches!(kind, StreamTimeoutKind::MaxDuration));
    let (wait, _) = next_stream_deadline(99 * second, 0, None, max).unwrap();
    assert_eq!(wait, 0);
    assert!(next_stream_deadline(1, 1, None, None).is_none());
    assert_eq!(saturating_remaining(3, 5), 0);
    assert_eq!(saturating_remaining(5, 3), 2);
    let error = stream_timeout_error(StreamTimeoutKind::MaxDuration, 2, 3);
    assert_eq!(error.message, "Upstream stream exceeded max duration 3s");
}

#[test]
fn events_commit_a_stream() {
    assert!(event_is_semantic(&CanonicalEvent::OutputTextDelta));
    assert!(event_is_semantic(&CanonicalEvent::ResponseFailed));
    assert!(!event_is_semantic(&CanonicalEvent::Other));
    assert!(is_done_marker(Some("[DONE]")));
    assert!(!is_done_marker(None));
}

#[test]
fn refused_streams_are_logged() {
    let raw = parse_json(r#"{"input": "hello"}"#).unwrap();
    let request = parse_canonical_request("req", &raw, "codex-main", "gpt-upstream").unwrap();
    assert!(check_stream_answer(&request, &route(), &target(), &resolved(), 200, &Vec::new()).is_ok());
    let (error, log) =
        check_stream_answer(&request, &route(), &target(), &resolved(), 500, &b"boom".to_vec())
            .unwrap_err();
    assert_eq!(error.kind, ErrorKind::UpstreamUnavailable);
    assert_eq!(error.message, "boom");
    assert_eq!(log.status_code, Some(500));
    assert_eq!(log.error_kind.as_deref(), Some("upstream_error"));
    assert_eq!(log.downstream_key_hash, None);
}

#[test]
fn streams_are_asked_for() {
    let raw = parse_json(r#"{"input": "hi", "store": true}"#).unwrap();
    let request = parse_canonical_request("req", &raw, "codex-main", "gpt-upstream").unwrap();
    assert!(!request.stream);
    let request = streaming_request(request);
    assert!(request.stream && request.store);
    assert_eq!(request.upstream_model, "gpt-upstream");
}
