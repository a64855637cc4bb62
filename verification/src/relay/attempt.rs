//! One attempt at one target: what is sent, what the answer means, and what is
//! logged and recorded of it.

use crate::canonical::{
    wire_api_name_round_trip, wire_api_named, CanonicalEvent, CanonicalResponseRequest, EventView,
    RequestView, ResponseUsage, WireApi,
};
use crate::clock::is_clock_second;
use crate::error::{Error, ErrorKind, ErrorView};
use crate::relay::context::{ResolvedTargetProtocol, ResolvedView};
use crate::relay::continuation::{
    replay_input_for_canonical, should_retry_with_replay_on_missing_handle, wants_replay,
    with_history, ContinuationContext, ContinuationView,
};
use crate::relay::persist::{
    handle_row, item_rows, persist_response_shell, response_row, ResponseShell,
};
use crate::relay::response::{
    extract_upstream_response_id, finished_items, normalize_downstream_response, normalized,
    reported_usage, upstream_id, DownstreamResponse, ItemIds, ShownResponse,
};
use crate::relay::target::{RouteSnapshot, RouteSnapshotView, SnapshotView, TargetSnapshot};
use crate::relay::upstream::{
    adapter_error, handle_missing, map_adapter_error, map_reqwest_error, map_upstream_status,
    status_error, transport_error, UpstreamError, UpstreamErrorView,
};
use crate::store::{LogEntry, LogView};
use crate::text::to_owned_opt;
use vstd::prelude::*;

verus! {

/// What is recorded of an attempt at a target.
#[derive(Debug)]
pub struct RoutingAttempt {
    pub target_id: String,
    pub provider_id: String,
    pub upstream_model: String,
    pub wire_api: String,
    pub status: String,
    pub error_kind: Option<String>,
    pub latency_ms: Option<u64>,
}

/// The mathematical value of a [`RoutingAttempt`].
#[verifier::ext_equal]
pub struct AttemptView {
    pub target_id: Seq<char>,
    pub provider_id: Seq<char>,
    pub upstream_model: Seq<char>,
    pub wire_api: Seq<char>,
    pub status: Seq<char>,
    pub error_kind: Option<Seq<char>>,
    pub latency_ms: Option<u64>,
}

impl DeepView for RoutingAttempt {
    type V = AttemptView;

    open spec fn deep_view(&self) -> AttemptView {
        AttemptView {
            target_id: self.target_id@,
            provider_id: self.provider_id@,
            upstream_model: self.upstream_model@,
            wire_api: self.wire_api@,
            status: self.status@,
            error_kind: self.error_kind.deep_view(),
            latency_ms: self.latency_ms,
        }
    }
}

/// What is recorded of an attempt at a target.
pub open spec fn recorded_attempt(
    target: SnapshotView,
    resolved: ResolvedView,
    status: Seq<char>,
    error_kind: Option<ErrorKind>,
    latency_ms: Option<u64>,
) -> AttemptView {
    AttemptView {
        target_id: target.target_id,
        provider_id: target.provider_id,
        upstream_model: target.upstream_model,
        wire_api: resolved.wire_api.name(),
        status,
        error_kind: match error_kind {
            Some(kind) => Some(kind.name()),
            None => None,
        },
        latency_ms,
    }
}

/// What is recorded of an attempt at a target.
pub fn build_routing_attempt(
    target: &TargetSnapshot,
    resolved: &ResolvedTargetProtocol,
    status: &str,
    error_kind: Option<ErrorKind>,
    latency_ms: Option<u64>,
) -> (r: RoutingAttempt)
    ensures
        r.deep_view() == recorded_attempt(
            target.deep_view(),
            resolved.deep_view(),
            status@,
            error_kind,
            latency_ms,
        ),
{
    RoutingAttempt {
        target_id: target.target_id.clone(),
        provider_id: target.provider_id.clone(),
        upstream_model: target.upstream_model.clone(),
        wire_api: resolved.wire_api.as_str().to_owned(),
        status: status.to_owned(),
        error_kind: match error_kind {
            Some(kind) => Some(kind.as_str().to_owned()),
            None => None,
        },
        latency_ms,
    }
}

/// The log line of a call to a target.
pub open spec fn call_log(
    request_id: Seq<char>,
    key_hash: Option<Seq<char>>,
    route: RouteSnapshotView,
    target: SnapshotView,
    wire_api: Option<Seq<char>>,
    status_code: Option<i32>,
    error_kind: Option<Seq<char>>,
    latency_ms: Option<i64>,
    usage: Option<ResponseUsage>,
) -> LogView {
    LogView {
        request_id,
        downstream_key_hash: key_hash,
        downstream_model: Some(route.downstream_model),
        route_id: Some(route.route_id),
        target_id: Some(target.target_id),
        provider_id: Some(target.provider_id),
        upstream_model: Some(target.upstream_model),
        wire_api,
        status_code,
        error_kind,
        latency_ms,
        input_tokens: match usage {
            Some(usage) => Some(usage.input_tokens as i64),
            None => None,
        },
        output_tokens: match usage {
            Some(usage) => Some(usage.output_tokens as i64),
            None => None,
        },
    }
}

/// The log line of a call to a target.
pub fn log_call(
    request_id: &str,
    key_hash: Option<&str>,
    route: &RouteSnapshot,
    target: &TargetSnapshot,
    wire_api: Option<WireApi>,
    status_code: Option<i32>,
    error_kind: Option<&str>,
    latency_ms: Option<i64>,
    usage: Option<ResponseUsage>,
) -> (r: LogEntry)
    ensures
        r.deep_view() == call_log(
            request_id@,
            key_hash.deep_view(),
            route.deep_view(),
            target.deep_view(),
            match wire_api {
                Some(api) => Some(api.name()),
                None => None,
            },
            status_code,
            error_kind.deep_view(),
            latency_ms,
            usage,
        ),
{
    LogEntry {
        request_id: request_id.to_owned(),
        downstream_key_hash: to_owned_opt(key_hash),
        downstream_model: Some(route.downstream_model.clone()),
        route_id: Some(route.route_id.clone()),
        target_id: Some(target.target_id.clone()),
        provider_id: Some(target.provider_id.clone()),
        upstream_model: Some(target.upstream_model.clone()),
        wire_api: match wire_api {
            Some(api) => Some(api.as_str().to_owned()),
            None => None,
        },
        status_code,
        error_kind: to_owned_opt(error_kind),
        latency_ms,
        input_tokens: match usage {
            Some(usage) => Some(
                #[verifier::truncate]
                (usage.input_tokens as i64),
            ),
            None => None,
        },
        output_tokens: match usage {
            Some(usage) => Some(
                #[verifier::truncate]
                (usage.output_tokens as i64),
            ),
            None => None,
        },
    }
}

/// The log line of a request to a managed provider that has no key.
pub fn log_missing_key(
    request_id: &str,
    route: &RouteSnapshot,
    target: &TargetSnapshot,
) -> (r: LogEntry)
    ensures
        r.deep_view() == call_log(
            request_id@,
            None,
            route.deep_view(),
            target.deep_view(),
            None,
            Some(500),
            Some("provider_key_missing"@),
            None,
            None,
        ),
{
    log_call(
        request_id,
        None,
        route,
        target,
        None,
        Some(500),
        Some("provider_key_missing"),
        None,
        None,
    )
}

/// What comes of a call to a target.
#[derive(Debug)]
pub enum CallEvent {
    /// No answer came, or it broke off.
    NoAnswer { timed_out: bool, detail: String },
    /// An answer came.
    Answer { status: u16, body: Vec<u8> },
    /// The body of an answer could not be read.
    Unreadable { error: UpstreamError },
}

/// The mathematical value of a [`CallEvent`].
#[verifier::ext_equal]
pub enum CallEventView {
    NoAnswer { timed_out: bool, detail: Seq<char> },
    Answer { status: u16, body: Seq<u8> },
    Unreadable { error: UpstreamErrorView },
}

impl DeepView for CallEvent {
    type V = CallEventView;

    open spec fn deep_view(&self) -> CallEventView {
        match self {
            CallEvent::NoAnswer { timed_out, detail } => CallEventView::NoAnswer {
                timed_out: *timed_out,
                detail: detail@,
            },
            CallEvent::Answer { status, body } => CallEventView::Answer {
                status: *status,
                body: body@,
            },
            CallEvent::Unreadable { error } => CallEventView::Unreadable {
                error: error.deep_view(),
            },
        }
    }
}

/// A failed attempt: the error, and what is logged and recorded of it.
#[derive(Debug)]
pub struct FailedAttempt {
    pub error: Error,
    pub log: LogEntry,
    pub attempt: RoutingAttempt,
}

/// The mathematical value of a [`FailedAttempt`].
#[verifier::ext_equal]
pub struct FailureView {
    pub error: ErrorView,
    pub log: LogView,
    pub attempt: AttemptView,
}

impl DeepView for FailedAttempt {
    type V = FailureView;

    open spec fn deep_view(&self) -> FailureView {
        FailureView {
            error: self.error.deep_view(),
            log: self.log.deep_view(),
            attempt: self.attempt.deep_view(),
        }
    }
}

/// What is to be done after a call.
#[derive(Debug)]
pub enum CallAction {
    /// Send this request in place of the first.
    Resend { request: CanonicalResponseRequest },
    /// Read this body.
    ReadBody { body: Vec<u8> },
    /// Give the target up.
    Fail { failure: FailedAttempt },
}

/// The mathematical value of a [`CallAction`].
#[verifier::ext_equal]
pub enum CallActionView {
    Resend { request: RequestView },
    ReadBody { body: Seq<u8> },
    Fail { failure: FailureView },
}

impl DeepView for CallAction {
    type V = CallActionView;

    open spec fn deep_view(&self) -> CallActionView {
        match self {
            CallAction::Resend { request } => CallActionView::Resend {
                request: request.deep_view(),
            },
            CallAction::ReadBody { body } => CallActionView::ReadBody { body: body@ },
            CallAction::Fail { failure } => CallActionView::Fail { failure: failure.deep_view() },
        }
    }
}

/// The request that is sent when the upstream does not know the handle: without
/// it, and with the history in front of the input.
pub open spec fn replayed_request(
    request: RequestView,
    continuation: Option<ContinuationView>,
) -> RequestView {
    RequestView {
        input: with_history(request.input, continuation),
        previous_response_id: None,
        ..request
    }
}

/// The failure of an attempt with an error. `status_code` is given where an
/// answer came; the log then names the error after the upstream.
pub open spec fn failure_of(
    request: RequestView,
    key_hash: Option<Seq<char>>,
    route: RouteSnapshotView,
    target: SnapshotView,
    resolved: ResolvedView,
    error: ErrorView,
    status_code: Option<u16>,
    latency_ms: u64,
) -> FailureView {
    FailureView {
        error,
        log: call_log(
            request.request_id,
            key_hash,
            route,
            target,
            Some(resolved.wire_api.name()),
            match status_code {
                Some(status) => Some(status as i32),
                None => None,
            },
            Some(
                match status_code {
                    Some(_) => "upstream_error"@,
                    None => error.kind.name(),
                },
            ),
            Some(latency_ms as i64),
            None,
        ),
        attempt: recorded_attempt(
            target,
            resolved,
            "failed"@,
            Some(error.kind),
            Some(latency_ms),
        ),
    }
}

/// Whether an HTTP status reports success.
pub open spec fn is_success(status: u16) -> bool {
    200 <= status < 300
}

/// What is to be done after a call. An answer that reports a missing handle to
/// the first request has it sent again; any other answer without success fails
/// the attempt, and so does the lack of a readable answer.
pub open spec fn after_call(
    request: RequestView,
    continuation: Option<ContinuationView>,
    key_hash: Option<Seq<char>>,
    route: RouteSnapshotView,
    target: SnapshotView,
    resolved: ResolvedView,
    resent: bool,
    event: CallEventView,
    latency_ms: u64,
) -> CallActionView {
    match event {
        CallEventView::NoAnswer { timed_out, detail } => CallActionView::Fail {
            failure: failure_of(
                request,
                key_hash,
                route,
                target,
                resolved,
                transport_error(timed_out, detail),
                None,
                latency_ms,
            ),
        },
        CallEventView::Answer { status, body } => if !resent && wants_replay(
            request,
            status,
            body,
        ) {
            CallActionView::Resend { request: replayed_request(request, continuation) }
        } else if is_success(status) {
            CallActionView::ReadBody { body }
        } else {
            CallActionView::Fail {
                failure: failure_of(
                    request,
                    key_hash,
                    route,
                    target,
                    resolved,
                    status_error(status, body),
                    Some(status),
                    latency_ms,
                ),
            }
        },
        CallEventView::Unreadable { error } => CallActionView::Fail {
            failure: failure_of(
                request,
                key_hash,
                route,
                target,
                resolved,
                adapter_error(error),
                None,
                latency_ms,
            ),
        },
    }
}

fn fail_attempt(
    request: &CanonicalResponseRequest,
    key_hash: Option<&str>,
    route: &RouteSnapshot,
    target: &TargetSnapshot,
    resolved: &ResolvedTargetProtocol,
    error: Error,
    status_code: Option<u16>,
    latency_ms: u64,
) -> (r: FailedAttempt)
    ensures
        r.deep_view() == failure_of(
            request.deep_view(),
            key_hash.deep_view(),
            route.deep_view(),
            target.deep_view(),
            resolved.deep_view(),
            error.deep_view(),
            status_code,
            latency_ms,
        ),
{
    #[verifier::truncate]
    let logged_latency: i64 = latency_ms as i64;
    let (code, kind): (Option<i32>, &str) = match status_code {
        Some(status) => (Some(status as i32), "upstream_error"),
        None => (None, error.kind.as_str()),
    };
    let log = log_call(
        request.request_id.as_str(),
        key_hash,
        route,
        target,
        Some(resolved.wire_api),
        code,
        Some(kind),
        Some(logged_latency),
        None,
    );
    let attempt = build_routing_attempt(
        target,
        resolved,
        "failed",
        Some(error.kind),
        Some(latency_ms),
    );
    FailedAttempt { error, log, attempt }
}

/// What is to be done after a call to a target. `resent` tells whether the
/// request was sent again already.
pub fn try_target(
    request: &CanonicalResponseRequest,
    continuation: Option<&ContinuationContext>,
    key_hash: Option<&str>,
    route: &RouteSnapshot,
    target: &TargetSnapshot,
    resolved: &ResolvedTargetProtocol,
    resent: bool,
    event: CallEvent,
    latency_ms: u64,
) -> (r: CallAction)
    ensures
        r.deep_view() == after_call(
            request.deep_view(),
            continuation.deep_view(),
            key_hash.deep_view(),
            route.deep_view(),
            target.deep_view(),
            resolved.deep_view(),
            resent,
            event.deep_view(),
            latency_ms,
        ),
{
    let (error, status_code): (Error, Option<u16>) = match event {
        CallEvent::NoAnswer { timed_out, detail } => (
            map_reqwest_error(timed_out, detail.as_str()),
            None,
        ),
        CallEvent::Unreadable { error } => (map_adapter_error(error), None),
        CallEvent::Answer { status, body } => {
            if !resent && should_retry_with_replay_on_missing_handle(status, &body, request) {
                let input = replay_input_for_canonical(request, continuation);
                return CallAction::Resend { request: request.with_input(input, None) };
            }
            if 200 <= status && status < 300 {
                return CallAction::ReadBody { body };
            }
            (map_upstream_status(status, &body), Some(status))
        },
    };
    CallAction::Fail {
        failure: fail_attempt(
            request,
            key_hash,
            route,
            target,
            resolved,
            error,
            status_code,
            latency_ms,
        ),
    }
}

/// A successful attempt: the response, the rows to store, and what is logged
/// and recorded of it.
#[derive(Debug)]
pub struct CompletedAttempt {
    pub response: DownstreamResponse,
    pub upstream_response_id: Option<String>,
    pub shell: ResponseShell,
    pub log: LogEntry,
    pub attempt: RoutingAttempt,
}

/// The rows of a completed attempt: the response, its handle where the upstream
/// gave an id, and its items.
pub open spec fn shell_holds(
    shell: ResponseShell,
    request: RequestView,
    route: RouteSnapshotView,
    target: SnapshotView,
    resolved: ResolvedView,
    response: ShownResponse,
    usage_json: Option<Seq<char>>,
    upstream_response_id: Option<Seq<char>>,
) -> bool {
    &&& shell.response.deep_view() == response_row(
        request.request_id,
        route,
        target,
        resolved,
        response,
        usage_json,
        upstream_response_id,
        request.previous_response_id,
    )
    &&& match upstream_response_id {
        Some(id) => shell.handle.deep_view() matches Some(handle) && handle == handle_row(
            target,
            resolved,
            response,
            id,
            handle.id,
        ),
        None => shell.handle is None,
    }
    &&& shell.items.deep_view() == item_rows(response)
}

/// Completes an attempt from the events of the answer. `ids` are fresh ids for
/// the output items, `usage_json` is the usage that the events report as it is
/// to be stored.
pub fn complete_attempt(
    request: &CanonicalResponseRequest,
    key_hash: Option<&str>,
    route: &RouteSnapshot,
    target: &TargetSnapshot,
    resolved: &ResolvedTargetProtocol,
    events: &Vec<CanonicalEvent>,
    response_id: &str,
    ids: &Vec<ItemIds>,
    usage_json: Option<String>,
    latency_ms: u64,
) -> (r: CompletedAttempt)
    requires
        ids.len() >= finished_items(events.deep_view()).len(),
        events.len() <= i64::MAX,
    ensures
        r.response.deep_view() == normalized(
            route.downstream_model@,
            events.deep_view(),
            response_id@,
            ids.deep_view(),
            r.response.created_at,
        ),
        is_clock_second(r.response.created_at),
        r.upstream_response_id.deep_view() == upstream_id(events.deep_view()),
        shell_holds(
            r.shell,
            request.deep_view(),
            route.deep_view(),
            target.deep_view(),
            resolved.deep_view(),
            r.response.deep_view(),
            usage_json.deep_view(),
            r.upstream_response_id.deep_view(),
        ),
        r.log.deep_view() == call_log(
            request.request_id@,
            key_hash.deep_view(),
            route.deep_view(),
            target.deep_view(),
            Some(resolved.wire_api.name()),
            Some(200),
            None,
            None,
            reported_usage(events.deep_view()),
        ),
        r.attempt.deep_view() == recorded_attempt(
            target.deep_view(),
            resolved.deep_view(),
            "success"@,
            None,
            Some(latency_ms),
        ),
{
    let upstream_response_id = extract_upstream_response_id(events);
    let response = normalize_downstream_response(
        route.downstream_model.as_str(),
        events,
        response_id,
        ids,
    );
    proof {
        lemma_finished_at_most(events.deep_view());
        assert(response.output.deep_view().len() == response.output@.len());
    }
    let shell = persist_response_shell(
        request.request_id.as_str(),
        route,
        target,
        resolved,
        &response,
        usage_json,
        &upstream_response_id,
        &request.previous_response_id,
    );
    let log = log_call(
        request.request_id.as_str(),
        key_hash,
        route,
        target,
        Some(resolved.wire_api),
        Some(200),
        None,
        None,
        response.usage,
    );
    let attempt = build_routing_attempt(target, resolved, "success", None, Some(latency_ms));
    CompletedAttempt { response, upstream_response_id, shell, log, attempt }
}

pub(crate) proof fn lemma_finished_at_most(events: Seq<EventView>)
    ensures
        finished_items(events).len() <= events.len(),
    decreases events.len(),
{
    if events.len() > 0 {
        lemma_finished_at_most(events.drop_last());
    }
}

/// A request is sent again at most once, and only when the upstream reports a
/// missing handle; what is then sent carries no handle.
pub proof fn resend_happens_at_most_once(
    request: RequestView,
    continuation: Option<ContinuationView>,
    key_hash: Option<Seq<char>>,
    route: RouteSnapshotView,
    target: SnapshotView,
    resolved: ResolvedView,
    resent: bool,
    event: CallEventView,
    latency_ms: u64,
)
    ensures
        after_call(
            request,
            continuation,
            key_hash,
            route,
            target,
            resolved,
            resent,
            event,
            latency_ms,
        ) matches CallActionView::Resend { request: again } ==> {
            &&& !resent
            &&& request.previous_response_id is Some
            &&& again.previous_response_id is None
            &&& again.input.len() >= request.input.len()
        },
{
}

/// Every failed attempt is logged and recorded under the kind of its error or,
/// where the upstream answered, under the upstream's status.
pub proof fn failures_are_recorded(
    request: RequestView,
    continuation: Option<ContinuationView>,
    key_hash: Option<Seq<char>>,
    route: RouteSnapshotView,
    target: SnapshotView,
    resolved: ResolvedView,
    resent: bool,
    event: CallEventView,
    latency_ms: u64,
)
    ensures
        after_call(
            request,
            continuation,
            key_hash,
            route,
            target,
            resolved,
            resent,
            event,
            latency_ms,
        ) matches CallActionView::Fail { failure } ==> {
            &&& failure.log.target_id == Some(target.target_id)
            &&& failure.attempt.target_id == target.target_id
            &&& failure.attempt.error_kind == Some(failure.error.kind.name())
            &&& failure.attempt.status == "failed"@
            &&& failure.log.error_kind is Some
        },
{
}

/// What is recorded of an attempt tells of the target that was tried, of the protocol
/// that it speaks, and of what came of it.
pub proof fn attempt_is_recorded_under_its_target(
    target: SnapshotView,
    resolved: ResolvedView,
    status: Seq<char>,
    error_kind: Option<ErrorKind>,
    latency_ms: Option<u64>,
)
    ensures
        ({
            let record = recorded_attempt(target, resolved, status, error_kind, latency_ms);
            &&& record.target_id == target.target_id
            &&& record.provider_id == target.provider_id
            &&& record.upstream_model == target.upstream_model
            &&& wire_api_named(record.wire_api) == Some(resolved.wire_api)
            &&& record.status == status && record.latency_ms == latency_ms
            &&& record.error_kind is Some <==> error_kind is Some
            &&& error_kind matches Some(kind) ==> record.error_kind == Some(kind.name())
        }),
{
    wire_api_name_round_trip(resolved.wire_api);
}

/// The log line of a call tells of the request and its key, of the route it came
/// under, of the target that was called, and of what came of it; the tokens are those
/// of the usage, and there are none without it.
pub proof fn call_is_logged_in_full(
    request_id: Seq<char>,
    key_hash: Option<Seq<char>>,
    route: RouteSnapshotView,
    target: SnapshotView,
    wire_api: Option<Seq<char>>,
    status_code: Option<i32>,
    error_kind: Option<Seq<char>>,
    latency_ms: Option<i64>,
    usage: Option<ResponseUsage>,
)
    ensures
        ({
            let line = call_log(
                request_id,
                key_hash,
                route,
                target,
                wire_api,
                status_code,
                error_kind,
                latency_ms,
                usage,
            );
            &&& line.request_id == request_id && line.downstream_key_hash == key_hash
            &&& line.downstream_model == Some(route.downstream_model)
            &&& line.route_id == Some(route.route_id)
            &&& line.target_id == Some(target.target_id)
            &&& line.provider_id == Some(target.provider_id)
            &&& line.upstream_model == Some(target.upstream_model)
            &&& line.wire_api == wire_api && line.status_code == status_code
            &&& line.error_kind == error_kind && line.latency_ms == latency_ms
            &&& usage is None ==> line.input_tokens is None && line.output_tokens is None
            &&& usage matches Some(usage) ==> {
                &&& line.input_tokens is Some && line.output_tokens is Some
                &&& usage.input_tokens <= i64::MAX ==> line.input_tokens->0 == usage.input_tokens
                &&& usage.output_tokens <= i64::MAX ==> line.output_tokens->0
                    == usage.output_tokens
            }
        }),
{
}

/// What is sent again differs from the request in its handle, which is gone, and in
/// the history in front of its input, and in nothing else.
pub proof fn resent_request_is_the_same_otherwise(
    request: RequestView,
    continuation: ContinuationView,
)
    ensures
        replayed_request(request, Some(continuation)) == (RequestView {
            input: continuation.replay_items + request.input,
            previous_response_id: None,
            ..request
        }),
        replayed_request(request, None) == (RequestView { previous_response_id: None, ..request }),
{
}

/// An answer is read just where it reports success, and then in full; a failure is
/// reported by its own cause, with the status where the upstream answered, and is
/// logged and recorded with its time; without a report of a missing handle nothing is
/// sent again.
pub proof fn call_comes_to_what_was_answered(
    request: RequestView,
    continuation: Option<ContinuationView>,
    key_hash: Option<Seq<char>>,
    route: RouteSnapshotView,
    target: SnapshotView,
    resolved: ResolvedView,
    resent: bool,
    status: u16,
    body: Seq<u8>,
    latency_ms: u64,
)
    ensures
        ({
            let action = after_call(
                request,
                continuation,
                key_hash,
                route,
                target,
                resolved,
                resent,
                CallEventView::Answer { status, body },
                latency_ms,
            );
            let again = !resent && request.previous_response_id is Some && handle_missing(
                status,
                body,
            );
            &&& action is Resend <==> again
            &&& action is ReadBody <==> !again && 200 <= status <= 299
            &&& action matches CallActionView::ReadBody { body: read } ==> read == body
            &&& action matches CallActionView::Fail { failure } ==> {
                &&& failure.error == status_error(status, body)
                &&& failure.log.status_code == Some(status as i32)
                &&& failure.log.error_kind == Some("upstream_error"@)
                &&& latency_ms <= i64::MAX ==> failure.log.latency_ms is Some
                    && failure.log.latency_ms->0 == latency_ms
                &&& failure.attempt.latency_ms == Some(latency_ms)
                &&& failure.log.downstream_key_hash == key_hash
                &&& failure.log.request_id == request.request_id
                &&& failure.log.wire_api == Some(resolved.wire_api.name())
            }
        }),
{
}

/// A call without a readable answer fails by its own cause, and is logged under the
/// kind of its error, without a status.
pub proof fn call_without_an_answer_fails(
    request: RequestView,
    continuation: Option<ContinuationView>,
    key_hash: Option<Seq<char>>,
    route: RouteSnapshotView,
    target: SnapshotView,
    resolved: ResolvedView,
    resent: bool,
    event: CallEventView,
    latency_ms: u64,
)
    requires
        !(event is Answer),
    ensures
        after_call(
            request,
            continuation,
            key_hash,
            route,
            target,
            resolved,
            resent,
            event,
            latency_ms,
        ) matches CallActionView::Fail { failure } && {
            &&& event matches CallEventView::NoAnswer { timed_out, detail } ==> failure.error
                == transport_error(timed_out, detail)
            &&& event matches CallEventView::Unreadable { error } ==> failure.error
                == adapter_error(error)
            &&& failure.log.status_code is None
            &&& failure.log.error_kind == Some(failure.error.kind.name())
        },
{
}

/// The rows of a completed attempt are about one and the same response: its own row,
/// its items, and its handle just where the upstream gave an id, under that id.
pub proof fn rows_are_of_one_response(
    shell: ResponseShell,
    request: RequestView,
    route: RouteSnapshotView,
    target: SnapshotView,
    resolved: ResolvedView,
    response: ShownResponse,
    usage_json: Option<Seq<char>>,
    upstream_response_id: Option<Seq<char>>,
)
    requires
        shell_holds(
            shell,
            request,
            route,
            target,
            resolved,
            response,
            usage_json,
            upstream_response_id,
        ),
    ensures
        shell.response.deep_view().id == response.id,
        shell.response.deep_view().request_id == request.request_id,
        shell.response.deep_view().previous_response_id == request.previous_response_id,
        shell.response.deep_view().usage_json == usage_json,
        shell.response.deep_view().upstream_response_id == upstream_response_id,
        shell.items.deep_view().len() == response.output.len(),
        forall|i: int|
            0 <= i < response.output.len() ==> (#[trigger] shell.items.deep_view()[i]).response_id
                == response.id,
        shell.handle is Some <==> upstream_response_id is Some,
        shell.handle.deep_view() matches Some(handle) ==> {
            &&& handle.modelwire_response_id == response.id
            &&& handle.upstream_response_id == upstream_response_id
            &&& handle.credential_hash == resolved.credential_hash
            &&& handle.provider_id == target.provider_id
        },
{
}

} // verus!
