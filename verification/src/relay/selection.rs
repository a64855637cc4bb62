//! Walking the targets of a route: which one serves a request, and what the
//! client is told when none does.

use crate::canonical::{CanonicalResponseRequest, RequestView};
use crate::error::{error_of, outcome, Error, ErrorKind, ErrorView};
use crate::json::{Json, JsonView};
use crate::relay::context::{
    context_guard_check, fits, overflow_error, should_fallback_on_context_guard,
    should_skip_target_for_tool_support, skipped_for_tools, ResolvedTargetProtocol,
};
use crate::relay::continuation::{
    apply_continuation_to_canonical, continued, ContinuationContext, ContinuationView,
};
use crate::relay::request::{
    canonical_of, flag, flag_field, parse_canonical_request, require_string, required_text,
};
use crate::relay::target::{
    checked_key_of, resolve_upstream_key_checked, upstream_key_of, RouteSnapshot, SnapshotView,
    TargetSnapshot,
};
use crate::text::{contains_text, join3, occurs_at};
use vstd::prelude::*;

verus! {

/// The model that a request without streaming asks for.
pub open spec fn plain_model(raw: JsonView) -> Result<Seq<char>, ErrorView> {
    match required_text(raw, "model"@) {
        Ok(model) => if flag(raw, "stream"@) {
            Err(
                error_of(
                    ErrorKind::RequestInvalid,
                    "Use relay_streaming_response for stream=true requests"@,
                ),
            )
        } else {
            Ok(model)
        },
        Err(error) => Err(error),
    }
}

/// The model that a request without streaming asks for.
pub fn plain_request_model(raw: &Json) -> (r: Result<String, Error>)
    ensures
        outcome(r) == plain_model(raw@),
{
    match require_string(raw, "model") {
        Ok(model) => if flag_field(raw, "stream") {
            Err(
                Error::new(
                    ErrorKind::RequestInvalid,
                    "Use relay_streaming_response for stream=true requests",
                ),
            )
        } else {
            Ok(model.to_owned())
        },
        Err(error) => Err(error),
    }
}

/// A target made ready for a request, or the reason why it is not.
#[derive(Debug)]
pub enum Preparation {
    /// The target can be called with this request and this key.
    Ready { request: CanonicalResponseRequest, upstream_key: Option<String> },
    /// The next target is to be tried.
    PassOver { error: Error },
    /// The request is refused.
    Refuse { error: Error, key_missing: bool },
}

/// The mathematical value of a [`Preparation`].
#[verifier::ext_equal]
pub enum PreparationView {
    Ready { request: RequestView, upstream_key: Option<Seq<char>> },
    PassOver { error: ErrorView },
    Refuse { error: ErrorView, key_missing: bool },
}

impl DeepView for Preparation {
    type V = PreparationView;

    open spec fn deep_view(&self) -> PreparationView {
        match self {
            Preparation::Ready { request, upstream_key } => PreparationView::Ready {
                request: request.deep_view(),
                upstream_key: upstream_key.deep_view(),
            },
            Preparation::PassOver { error } => PreparationView::PassOver {
                error: error.deep_view(),
            },
            Preparation::Refuse { error, key_missing } => PreparationView::Refuse {
                error: error.deep_view(),
                key_missing: *key_missing,
            },
        }
    }
}

/// What it takes to call a target: the request can be read, its continuation
/// applies, it fits the target, and there is a key where one is needed.
pub open spec fn prepared(
    request_id: Seq<char>,
    raw: JsonView,
    downstream_model: Seq<char>,
    target: SnapshotView,
    continuation: Option<ContinuationView>,
    authorization: Option<Seq<char>>,
    credential_hash: Seq<char>,
) -> PreparationView {
    match canonical_of(request_id, raw, downstream_model, target.upstream_model) {
        Err(error) => PreparationView::Refuse { error, key_missing: false },
        Ok(plain) => match continued(plain, continuation, target, credential_hash) {
            Err(error) => PreparationView::Refuse { error, key_missing: false },
            Ok(request) => if !fits(request, target) {
                if target.context_overflow_policy == "fallback"@ {
                    PreparationView::PassOver { error: overflow_error(request, target) }
                } else {
                    PreparationView::Refuse {
                        error: overflow_error(request, target),
                        key_missing: false,
                    }
                }
            } else {
                match checked_key_of(target, authorization) {
                    Err(error) => PreparationView::Refuse { error, key_missing: true },
                    Ok(upstream_key) => PreparationView::Ready { request, upstream_key },
                }
            },
        },
    }
}

/// Makes a target ready for a request. `credential_hash` is the hash of the
/// credential that the target would be called with.
pub fn prepare_target(
    request_id: &str,
    raw: &Json,
    downstream_model: &str,
    target: &TargetSnapshot,
    continuation: Option<&ContinuationContext>,
    downstream_authorization: Option<&str>,
    credential_hash: &str,
) -> (r: Preparation)
    ensures
        r.deep_view() == prepared(
            request_id@,
            raw@,
            downstream_model@,
            target.deep_view(),
            continuation.deep_view(),
            downstream_authorization.deep_view(),
            credential_hash@,
        ),
{
    let mut request = match parse_canonical_request(
        request_id,
        raw,
        downstream_model,
        target.upstream_model.as_str(),
    ) {
        Ok(request) => request,
        Err(error) => {
            return Preparation::Refuse { error, key_missing: false };
        },
    };
    if let Err(error) = apply_continuation_to_canonical(
        &mut request,
        continuation,
        target,
        credential_hash,
    ) {
        return Preparation::Refuse { error, key_missing: false };
    }
    if let Err(error) = context_guard_check(target, &request) {
        return if should_fallback_on_context_guard(target) {
            Preparation::PassOver { error }
        } else {
            Preparation::Refuse { error, key_missing: false }
        };
    }
    match resolve_upstream_key_checked(target, downstream_authorization) {
        Ok(upstream_key) => Preparation::Ready { request, upstream_key },
        Err(error) => Preparation::Refuse { error, key_missing: true },
    }
}

/// The refusal of a target that is not known to support tools.
pub open spec fn tools_unsupported(target: SnapshotView) -> ErrorView {
    error_of(
        ErrorKind::ProtocolNotSupported,
        "Target '"@ + target.target_id
            + "' cannot be used for tool-bearing request because tool support is unknown/unsupported"@,
    )
}

/// Why a target is passed over once its protocol is known: for want of tool
/// support.
pub fn check_tool_support(
    target: &TargetSnapshot,
    request: &CanonicalResponseRequest,
    resolved: &ResolvedTargetProtocol,
) -> (r: Option<Error>)
    ensures
        r.deep_view() == (if skipped_for_tools(
            target.deep_view(),
            request.deep_view(),
            resolved.deep_view(),
        ) {
            Some(tools_unsupported(target.deep_view()))
        } else {
            None
        }),
{
    if should_skip_target_for_tool_support(target, request, resolved) {
        Some(
            Error {
                kind: ErrorKind::ProtocolNotSupported,
                message: join3(
                    "Target '",
                    target.target_id.as_str(),
                    "' cannot be used for tool-bearing request because tool support is unknown/unsupported",
                ),
            },
        )
    } else {
        None
    }
}

/// What came of a target.
#[derive(Debug)]
pub enum TargetOutcome {
    /// It served the request.
    Served,
    /// It was passed over before it was called.
    PassedOver { error: Error },
    /// It failed; the next one may be tried where the error is eligible.
    Failed { error: Error, fallback_eligible: bool },
    /// It could not be made ready, or its protocol could not be told.
    Refused { error: Error },
}

/// The mathematical value of a [`TargetOutcome`].
#[verifier::ext_equal]
pub enum OutcomeView {
    Served,
    PassedOver { error: ErrorView },
    Failed { error: ErrorView, fallback_eligible: bool },
    Refused { error: ErrorView },
}

impl DeepView for TargetOutcome {
    type V = OutcomeView;

    open spec fn deep_view(&self) -> OutcomeView {
        match self {
            TargetOutcome::Served => OutcomeView::Served,
            TargetOutcome::PassedOver { error } => OutcomeView::PassedOver {
                error: error.deep_view(),
            },
            TargetOutcome::Failed { error, fallback_eligible } => OutcomeView::Failed {
                error: error.deep_view(),
                fallback_eligible: *fallback_eligible,
            },
            TargetOutcome::Refused { error } => OutcomeView::Refused { error: error.deep_view() },
        }
    }
}

impl OutcomeView {
    /// The error after which the next target is tried, where this is one.
    pub open spec fn fallback(self) -> Option<ErrorView> {
        match self {
            OutcomeView::PassedOver { error } => Some(error),
            OutcomeView::Failed { error, fallback_eligible: true } => Some(error),
            _ => None,
        }
    }
}

/// How far the walk over the targets of a route has come.
#[derive(Debug)]
pub struct TargetWalk {
    target_count: usize,
    has_tools: bool,
    streaming: bool,
    position: usize,
    last_error: Option<Error>,
}

/// The mathematical value of a [`TargetWalk`].
#[verifier::ext_equal]
pub struct WalkView {
    pub target_count: nat,
    pub has_tools: bool,
    pub streaming: bool,
    pub position: nat,
    pub last_error: Option<ErrorView>,
}

/// What is to be done next.
#[derive(Debug)]
pub enum WalkStep {
    /// Try the target at this position.
    Try { position: usize },
    /// Answer with the response of the target that served.
    Answer,
    /// Answer with this error.
    Refuse { error: Error },
}

/// The mathematical value of a [`WalkStep`].
#[verifier::ext_equal]
pub enum StepView {
    Try { position: nat },
    Answer,
    Refuse { error: ErrorView },
}

impl DeepView for WalkStep {
    type V = StepView;

    open spec fn deep_view(&self) -> StepView {
        match self {
            WalkStep::Try { position } => StepView::Try { position: *position as nat },
            WalkStep::Answer => StepView::Answer,
            WalkStep::Refuse { error } => StepView::Refuse { error: error.deep_view() },
        }
    }
}

/// The error when no target is left.
pub open spec fn exhausted_error(walk: WalkView) -> ErrorView {
    match walk.last_error {
        Some(error) => if walk.has_tools && error.kind == ErrorKind::ProtocolNotSupported {
            error_of(
                ErrorKind::ProtocolNotSupported,
                "No upstream target with known tool support could satisfy this tool-bearing request"@,
            )
        } else {
            error
        },
        None => error_of(
            ErrorKind::UpstreamUnavailable,
            if walk.streaming {
                "No upstream target could satisfy the streaming request"@
            } else {
                "No upstream target could satisfy the request"@
            },
        ),
    }
}

/// What is to be done next at a position: the target there, or nothing is left.
pub open spec fn step_here(walk: WalkView) -> StepView {
    if walk.position < walk.target_count {
        StepView::Try { position: walk.position }
    } else {
        StepView::Refuse { error: exhausted_error(walk) }
    }
}

/// The walk after an outcome, and what is to be done next.
pub open spec fn walk_on(walk: WalkView, result: OutcomeView) -> (WalkView, StepView) {
    match result.fallback() {
        Some(error) => {
            let next = WalkView {
                position: walk.position + 1,
                last_error: Some(error),
                ..walk
            };
            (next, step_here(next))
        },
        None => match result {
            OutcomeView::Failed { error, .. } => (walk, StepView::Refuse { error }),
            OutcomeView::Refused { error } => (walk, StepView::Refuse { error }),
            _ => (walk, StepView::Answer),
        },
    }
}

impl TargetWalk {
    /// The mathematical value of this walk.
    pub closed spec fn view(&self) -> WalkView {
        WalkView {
            target_count: self.target_count as nat,
            has_tools: self.has_tools,
            streaming: self.streaming,
            position: self.position as nat,
            last_error: self.last_error.deep_view(),
        }
    }

    /// A walk over the targets of a route, from the first one on.
    pub fn start(route: &RouteSnapshot, has_tools: bool, streaming: bool) -> (r: (
        TargetWalk,
        WalkStep,
    ))
        ensures
            r.0@ == (WalkView {
                target_count: route.targets@.len(),
                has_tools,
                streaming,
                position: 0,
                last_error: None,
            }),
            r.1.deep_view() == step_here(r.0@),
    {
        let walk = TargetWalk {
            target_count: route.targets.len(),
            has_tools,
            streaming,
            position: 0,
            last_error: None,
        };
        let step = walk.step();
        (walk, step)
    }

    fn step(&self) -> (r: WalkStep)
        ensures
            r.deep_view() == step_here(self@),
    {
        if self.position < self.target_count {
            return WalkStep::Try { position: self.position };
        }
        let error = match &self.last_error {
            Some(error) => if self.has_tools && error.kind == ErrorKind::ProtocolNotSupported {
                Error::new(
                    ErrorKind::ProtocolNotSupported,
                    "No upstream target with known tool support could satisfy this tool-bearing request",
                )
            } else {
                error.duplicate()
            },
            None => Error::new(
                ErrorKind::UpstreamUnavailable,
                if self.streaming {
                    "No upstream target could satisfy the streaming request"
                } else {
                    "No upstream target could satisfy the request"
                },
            ),
        };
        WalkStep::Refuse { error }
    }

    /// Takes note of what came of the target at the walk's position.
    pub fn advance(&mut self, result: TargetOutcome) -> (r: WalkStep)
        requires
            old(self)@.position < old(self)@.target_count,
        ensures
            (final(self)@, r.deep_view()) == walk_on(old(self)@, result.deep_view()),
    {
        let error = match result {
            TargetOutcome::Served => {
                return WalkStep::Answer;
            },
            TargetOutcome::Refused { error } => {
                return WalkStep::Refuse { error };
            },
            TargetOutcome::PassedOver { error } => error,
            TargetOutcome::Failed { error, fallback_eligible } => {
                if !fallback_eligible {
                    return WalkStep::Refuse { error };
                }
                error
            },
        };
        self.position = self.position + 1;
        self.last_error = Some(error);
        self.step()
    }
}

/// The last step of a walk whose targets come out in this way, up to the first
/// one that decides.
pub open spec fn walk_all(walk: WalkView, outcomes: Seq<OutcomeView>) -> StepView
    decreases outcomes.len(),
{
    if outcomes.len() == 0 {
        step_here(walk)
    } else {
        let (next, step) = walk_on(walk, outcomes[0]);
        if outcomes[0].fallback() is Some {
            walk_all(next, outcomes.drop_first())
        } else {
            step
        }
    }
}

/// The first outcome that is no fallback decides a request: a target that
/// serves answers it, and a failure that is not eligible for fallback refuses
/// it. No target behind that one is tried.
pub proof fn first_decisive_outcome_decides(walk: WalkView, outcomes: Seq<OutcomeView>, k: int)
    requires
        0 <= k < outcomes.len(),
        outcomes[k].fallback() is None,
        forall|i: int| 0 <= i < k ==> (#[trigger] outcomes[i]).fallback() is Some,
    ensures
        walk_all(walk, outcomes) == (match outcomes[k] {
            OutcomeView::Failed { error, .. } => StepView::Refuse { error },
            OutcomeView::Refused { error } => StepView::Refuse { error },
            _ => StepView::Answer,
        }),
    decreases k,
{
    if k > 0 {
        assert(outcomes[0].fallback() is Some);
        let rest = outcomes.drop_first();
        assert forall|i: int| 0 <= i < k - 1 implies (#[trigger] rest[i]).fallback() is Some by {
            assert(rest[i] == outcomes[i + 1]);
        }
        assert(rest[k - 1] == outcomes[k]);
        first_decisive_outcome_decides(walk_on(walk, outcomes[0]).0, rest, k - 1);
    }
}

/// Where every target is passed over or fails in a way that is eligible for
/// fallback, all of them are tried and the error of the last one is reported;
/// a request with tools is told when it was for want of tool support.
pub proof fn exhausted_walk_reports_last_error(walk: WalkView, outcomes: Seq<OutcomeView>)
    requires
        outcomes.len() > 0,
        walk.position + outcomes.len() == walk.target_count,
        forall|i: int| 0 <= i < outcomes.len() ==> (#[trigger] outcomes[i]).fallback() is Some,
    ensures
        walk_all(walk, outcomes) == (StepView::Refuse {
            error: exhausted_error(
                WalkView { last_error: outcomes.last().fallback(), ..walk },
            ),
        }),
    decreases outcomes.len(),
{
    let next = walk_on(walk, outcomes[0]).0;
    let rest = outcomes.drop_first();
    assert(outcomes[0].fallback() is Some);
    if outcomes.len() > 1 {
        assert forall|i: int| 0 <= i < rest.len() implies (#[trigger] rest[i]).fallback() is Some by {
            assert(rest[i] == outcomes[i + 1]);
        }
        assert(rest.last() == outcomes.last());
        exhausted_walk_reports_last_error(next, rest);
    } else {
        assert(rest.len() == 0);
    }
}

/// A request that does not fit a target is never sent to it: it is passed on
/// or refused, and not cut.
pub proof fn overflow_is_never_sent(
    request_id: Seq<char>,
    raw: JsonView,
    downstream_model: Seq<char>,
    target: SnapshotView,
    continuation: Option<ContinuationView>,
    authorization: Option<Seq<char>>,
    credential_hash: Seq<char>,
)
    ensures
        prepared(
            request_id,
            raw,
            downstream_model,
            target,
            continuation,
            authorization,
            credential_hash,
        ) matches PreparationView::Ready { request, upstream_key } ==> {
            &&& fits(request, target)
            &&& canonical_of(
                request_id,
                raw,
                downstream_model,
                target.upstream_model,
            ) matches Ok(plain) && continued(plain, continuation, target, credential_hash) == Ok::<
                RequestView,
                ErrorView,
            >(request)
            &&& target.provider_auth_mode == "managed"@ ==> upstream_key is Some
        },
{
}

/// A request without streaming names its model in a text; one that asks for a stream
/// is refused here.
pub proof fn plain_request_names_its_model(raw: JsonView)
    ensures
        plain_model(raw) is Ok <==> raw.get_str("model"@) is Some && raw.get("stream"@) != Some(
            JsonView::Bool(true),
        ),
        plain_model(raw) matches Ok(model) ==> raw.get_str("model"@) == Some(model),
        plain_model(raw) matches Err(error) ==> error.kind == ErrorKind::RequestInvalid,
{
}

/// A target is ready with the key that is to be sent to it. A request that does not
/// fit makes way for the next target just where the target says so, and is refused
/// elsewhere; nothing else makes way. Only the lack of a key is told as that.
pub proof fn target_is_ready_or_says_why(
    request_id: Seq<char>,
    raw: JsonView,
    downstream_model: Seq<char>,
    target: SnapshotView,
    continuation: Option<ContinuationView>,
    authorization: Option<Seq<char>>,
    credential_hash: Seq<char>,
)
    ensures
        ({
            let preparation = prepared(
                request_id,
                raw,
                downstream_model,
                target,
                continuation,
                authorization,
                credential_hash,
            );
            let plain = canonical_of(request_id, raw, downstream_model, target.upstream_model);
            let request = continued(plain->Ok_0, continuation, target, credential_hash);
            let is_read = plain is Ok && request is Ok;
            &&& preparation is Ready <==> is_read && fits(request->Ok_0, target) && !(
            target.provider_auth_mode == "managed"@ && target.provider_api_key is None)
            &&& preparation matches PreparationView::Ready { request: sent, upstream_key } ==> sent
                == request->Ok_0 && upstream_key == upstream_key_of(target, authorization)
            &&& preparation is PassOver <==> is_read && !fits(request->Ok_0, target)
                && target.context_overflow_policy == "fallback"@
            &&& preparation matches PreparationView::PassOver { error } ==> error.kind
                == ErrorKind::ContextLengthExceeded
            &&& preparation matches PreparationView::Refuse { error, key_missing } ==> {
                &&& key_missing <==> is_read && fits(request->Ok_0, target)
                &&& plain is Err ==> error == plain->Err_0
                &&& plain is Ok && request is Err ==> error == request->Err_0
                &&& is_read && !fits(request->Ok_0, target) ==> error.kind
                    == ErrorKind::ContextLengthExceeded
                &&& key_missing ==> error.kind == ErrorKind::InternalError
            }
        }),
{
    reveal_strlit("managed");
    reveal_strlit("pass_authorization");
    assert("managed"@.len() != "pass_authorization"@.len());
}

/// After a target that was passed over, or that failed in a way that lets the next one
/// try, the walk goes on to the very next position, and keeps that error; after any
/// other outcome it stays where it is and the request is decided.
pub proof fn walk_goes_target_by_target(walk: WalkView, result: OutcomeView)
    ensures
        ({
            let (next, step) = walk_on(walk, result);
            let goes_on = result is PassedOver || (result is Failed && result->fallback_eligible);
            let error = if result is PassedOver {
                result->PassedOver_error
            } else if result is Failed {
                result->Failed_error
            } else {
                result->Refused_error
            };
            &&& next.target_count == walk.target_count && next.has_tools == walk.has_tools
                && next.streaming == walk.streaming
            &&& goes_on ==> next.position == walk.position + 1 && next.last_error == Some(error)
            &&& !goes_on ==> next == walk
            &&& step matches StepView::Try { position } ==> goes_on && position == walk.position + 1
                && position < walk.target_count
            &&& goes_on && walk.position + 1 < walk.target_count ==> step is Try
            &&& step is Answer <==> result is Served
            &&& (result is Refused || (result is Failed && !result->fallback_eligible)) ==> step
                == (StepView::Refuse { error })
        }),
{
}

/// A walk begins with the first target. Where none is left, the last error is
/// reported as it is, but to a request with tools for which the last target's protocol
/// would not do; a walk over no targets at all reports that none could serve.
pub proof fn exhausted_walk_says_why(walk: WalkView)
    ensures
        walk.position < walk.target_count ==> step_here(walk) == (StepView::Try {
            position: walk.position,
        }),
        walk.position >= walk.target_count ==> (step_here(walk) matches StepView::Refuse { error }
            && {
            &&& walk.last_error matches Some(last) ==> error.kind == last.kind && (error == last
                || (walk.has_tools && last.kind == ErrorKind::ProtocolNotSupported))
            &&& walk.last_error is None ==> error.kind == ErrorKind::UpstreamUnavailable
        }),
{
}

/// A target that cannot be used for its tools is refused in its own name.
pub proof fn missing_tool_support_names_the_target(target: SnapshotView)
    ensures
        tools_unsupported(target).kind == ErrorKind::ProtocolNotSupported,
        contains_text(tools_unsupported(target).message, target.target_id),
{
    let front = "Target '"@;
    let message = tools_unsupported(target).message;
    assert(message.subrange(front.len() as int, (front.len() + target.target_id.len()) as int)
        =~= target.target_id);
    assert(occurs_at(message, target.target_id, front.len() as int));
}

} // verus!
