//! Compaction of a response: handed to an upstream that can do it, or done
//! here as a summary of what was visible.

use crate::canonical::WireApi;
use crate::error::{error_of, outcome, Error, ErrorKind, ErrorView};
use crate::ids::fresh_v7;
use crate::json::{
    add_item, add_member, array_of, integer, integer_value, lemma_holds, no_members, object_of,
    parse_json_bytes, parsed_json_bytes, render_json, rendered_json, text_value, Json, JsonView,
};
use crate::relay::context::ResolvedTargetProtocol;
use crate::relay::continuation::{load_content, stored_content};
use crate::relay::probe::add_header;
use crate::relay::request::{text_field_or, text_or};
use crate::relay::target::{RouteSnapshot, RouteSnapshotView, SnapshotView, TargetSnapshot};
use crate::relay::upstream::{join_url, joined_url, map_upstream_status, status_error};
use crate::store::{
    stored, ItemRecord, ItemView, LogEntry, LogView, ResponseRecord, ResponseRecordView,
};
use crate::text::{
    chars_of, contains_text, copy_opt, first_chars, is_blank, join2, join3, join5, occurs_at,
    part_is_contained, same, same_opt, take_chars, trim,
};
use vstd::prelude::*;
use vstd::string::StringExecFns;

verus! {

/// The response that is to be compacted, with where it was made.
#[derive(Debug)]
pub struct CompactionSourceState {
    pub response_id: String,
    pub provider_id: String,
    pub upstream_model: Option<String>,
    pub state_scope: Option<String>,
}

/// The mathematical value of a [`CompactionSourceState`].
#[verifier::ext_equal]
pub struct SourceView {
    pub response_id: Seq<char>,
    pub provider_id: Seq<char>,
    pub upstream_model: Option<Seq<char>>,
    pub state_scope: Option<Seq<char>>,
}

impl DeepView for CompactionSourceState {
    type V = SourceView;

    open spec fn deep_view(&self) -> SourceView {
        SourceView {
            response_id: self.response_id@,
            provider_id: self.provider_id@,
            upstream_model: self.upstream_model.deep_view(),
            state_scope: self.state_scope.deep_view(),
        }
    }
}

/// The id of the response that a request asks to compact.
pub open spec fn source_id(raw: JsonView) -> Option<Seq<char>> {
    match raw.get_str("previous_response_id"@) {
        Some(id) => Some(id),
        None => raw.get_str("response_id"@),
    }
}

/// The id of the response that a request asks to compact.
pub fn source_response_id(raw: &Json) -> (r: Option<&str>)
    ensures
        r.deep_view() == source_id(raw@),
{
    match raw.get_str("previous_response_id") {
        Some(id) => Some(id),
        None => raw.get_str("response_id"),
    }
}

/// The response that a request asks to compact, given what the store holds
/// under its id. It has to be there, and to say which provider made it.
pub open spec fn loaded_source(
    raw: JsonView,
    record: Result<Option<ResponseRecordView>, Seq<char>>,
) -> Result<Option<SourceView>, ErrorView> {
    match source_id(raw) {
        None => Ok(None),
        Some(id) => match record {
            Err(detail) => Err(
                error_of(
                    ErrorKind::InternalError,
                    "Failed to load compact source response state: "@ + detail,
                ),
            ),
            Ok(None) => Err(
                error_of(
                    ErrorKind::StateNotFound,
                    "Compaction source response '"@ + id + "' was not found"@,
                ),
            ),
            Ok(Some(record)) => match record.provider_id {
                None => Err(
                    error_of(
                        ErrorKind::StateNotContinuable,
                        "Compaction source response '"@ + record.id
                            + "' is missing provider lineage"@,
                    ),
                ),
                Some(provider_id) => Ok(
                    Some(
                        SourceView {
                            response_id: record.id,
                            provider_id,
                            upstream_model: record.upstream_model,
                            state_scope: record.state_scope,
                        },
                    ),
                ),
            },
        },
    }
}

/// The response that a request asks to compact. `record` is what the store
/// holds under [`source_response_id`].
pub fn load_compaction_source_state(
    raw: &Json,
    record: Result<Option<ResponseRecord>, String>,
) -> (r: Result<Option<CompactionSourceState>, Error>)
    ensures
        outcome(r) == loaded_source(raw@, stored(record)),
{
    let id = match source_response_id(raw) {
        Some(id) => id,
        None => {
            return Ok(None);
        },
    };
    let record = match record {
        Ok(Some(record)) => record,
        Ok(None) => {
            let message = join3(
                "Compaction source response '",
                id,
                "' was not found",
            );
            return Err(Error { kind: ErrorKind::StateNotFound, message });
        },
        Err(detail) => {
            return Err(
                Error::about(
                    ErrorKind::InternalError,
                    "Failed to load compact source response state: ",
                    detail.as_str(),
                ),
            );
        },
    };
    let provider_id = match record.provider_id {
        Some(provider_id) => provider_id,
        None => {
            let message = join3(
                "Compaction source response '",
                record.id.as_str(),
                "' is missing provider lineage",
            );
            return Err(Error { kind: ErrorKind::StateNotContinuable, message });
        },
    };
    Ok(
        Some(
            CompactionSourceState {
                response_id: record.id,
                provider_id,
                upstream_model: record.upstream_model,
                state_scope: record.state_scope,
            },
        ),
    )
}

/// Whether a target may compact a response: it is of the provider and the
/// state scope that made it, and of its model where that is known.
pub open spec fn matches_source(target: SnapshotView, source: Option<SourceView>) -> bool {
    source matches Some(source) ==> {
        &&& target.provider_id == source.provider_id
        &&& target.state_scope == source.state_scope
        &&& source.upstream_model matches Some(model) ==> target.upstream_model == model
    }
}

/// Whether a target may compact a response.
pub fn target_matches_compaction_source(
    target: &TargetSnapshot,
    source_state: Option<&CompactionSourceState>,
) -> (r: bool)
    ensures
        r == matches_source(target.deep_view(), source_state.deep_view()),
{
    let source = match source_state {
        Some(source) => source,
        None => {
            return true;
        },
    };
    if !same(target.provider_id.as_str(), source.provider_id.as_str()) {
        return false;
    }
    if !same_opt(&target.state_scope, &source.state_scope) {
        return false;
    }
    if let Some(model) = &source.upstream_model {
        if !same(target.upstream_model.as_str(), model.as_str()) {
            return false;
        }
    }
    true
}

/// Whether a mode lets an upstream compact.
pub open spec fn allows_native(mode: Seq<char>) -> bool {
    mode == "native_responses"@ || mode == "hybrid"@
}

/// Whether a mode lets the relay summarise.
pub open spec fn allows_summary(mode: Seq<char>) -> bool {
    mode == "local_summary"@ || mode == "hybrid"@
}

/// What came of a target of a compaction.
#[derive(Debug)]
pub enum CompactOutcome {
    /// The target answered.
    Served,
    /// The target does not speak the protocol that can compact.
    OtherProtocol,
    /// The target failed.
    Failed { error: Error, fallback_eligible: bool },
    /// The target's protocol could not be found.
    Refused { error: Error },
}

/// The mathematical value of a [`CompactOutcome`].
#[verifier::ext_equal]
pub enum CompactOutcomeView {
    Served,
    OtherProtocol,
    Failed { error: ErrorView, fallback_eligible: bool },
    Refused { error: ErrorView },
}

impl DeepView for CompactOutcome {
    type V = CompactOutcomeView;

    open spec fn deep_view(&self) -> CompactOutcomeView {
        match self {
            CompactOutcome::Served => CompactOutcomeView::Served,
            CompactOutcome::OtherProtocol => CompactOutcomeView::OtherProtocol,
            CompactOutcome::Failed { error, fallback_eligible } => CompactOutcomeView::Failed {
                error: error.deep_view(),
                fallback_eligible: *fallback_eligible,
            },
            CompactOutcome::Refused { error } => CompactOutcomeView::Refused {
                error: error.deep_view(),
            },
        }
    }
}

/// What is to be done next for a compaction.
#[derive(Debug)]
pub enum CompactStep {
    /// Try the target at this position.
    Try { position: usize },
    /// Summarise here.
    Summarise,
    /// Answer with what the target answered.
    Answer,
    /// Answer with this error.
    Refuse { error: Error },
}

/// The mathematical value of a [`CompactStep`].
#[verifier::ext_equal]
pub enum CompactStepView {
    Try { position: int },
    Summarise,
    Answer,
    Refuse { error: ErrorView },
}

impl DeepView for CompactStep {
    type V = CompactStepView;

    open spec fn deep_view(&self) -> CompactStepView {
        match self {
            CompactStep::Try { position } => CompactStepView::Try { position: *position as int },
            CompactStep::Summarise => CompactStepView::Summarise,
            CompactStep::Answer => CompactStepView::Answer,
            CompactStep::Refuse { error } => CompactStepView::Refuse { error: error.deep_view() },
        }
    }
}

/// A walk over the targets of a route to compact a response.
#[derive(Debug)]
pub struct CompactWalk {
    /// Which targets match the response.
    matching: Vec<bool>,
    mode: String,
    position: usize,
    last_error: Option<Error>,
}

/// The mathematical value of a [`CompactWalk`].
#[verifier::ext_equal]
pub struct CompactView {
    pub matching: Seq<bool>,
    pub mode: Seq<char>,
    pub position: int,
    pub last_error: Option<ErrorView>,
}

/// The first position from `from` on whose target matches.
pub open spec fn next_match(matching: Seq<bool>, from: int) -> Option<int>
    decreases matching.len() - from,
{
    if from < 0 || from >= matching.len() {
        None
    } else if matching[from] {
        Some(from)
    } else {
        next_match(matching, from + 1)
    }
}

/// The error when no target is left and no summary is allowed.
pub open spec fn unavailable_error(walk: CompactView) -> ErrorView {
    match walk.last_error {
        Some(error) => error,
        None => error_of(
            ErrorKind::ProtocolNotSupported,
            "Compaction unavailable for mode '"@ + walk.mode
                + "'; no compatible /v1/responses/compact target"@,
        ),
    }
}

/// What is to be done at a position of the walk.
pub open spec fn compact_step(walk: CompactView) -> CompactStepView {
    match next_match(walk.matching, walk.position) {
        Some(position) if allows_native(walk.mode) => CompactStepView::Try { position },
        _ => if allows_summary(walk.mode) {
            CompactStepView::Summarise
        } else {
            CompactStepView::Refuse { error: unavailable_error(walk) }
        },
    }
}

/// The walk after the target at `position` came out in this way, and what is to
/// be done next.
pub open spec fn compact_on(
    walk: CompactView,
    position: int,
    result: CompactOutcomeView,
) -> (CompactView, CompactStepView) {
    let passed = CompactView { position: position + 1, ..walk };
    match result {
        CompactOutcomeView::Served => (walk, CompactStepView::Answer),
        CompactOutcomeView::OtherProtocol => (passed, compact_step(passed)),
        CompactOutcomeView::Refused { error } => (walk, CompactStepView::Refuse { error }),
        CompactOutcomeView::Failed { error, fallback_eligible } => if fallback_eligible {
            let failed = CompactView { last_error: Some(error), ..passed };
            (failed, compact_step(failed))
        } else {
            (walk, CompactStepView::Refuse { error })
        },
    }
}

/// Which targets match a response.
pub open spec fn matching_targets(
    targets: Seq<SnapshotView>,
    source: Option<SourceView>,
) -> Seq<bool> {
    targets.map_values(|target: SnapshotView| matches_source(target, source))
}

impl CompactWalk {
    /// The mathematical value of this walk.
    pub closed spec fn view(&self) -> CompactView {
        CompactView {
            matching: self.matching@,
            mode: self.mode@,
            position: self.position as int,
            last_error: self.last_error.deep_view(),
        }
    }

    /// A walk over the targets of a route that match a response.
    pub fn start(
        route: &RouteSnapshot,
        source_state: Option<&CompactionSourceState>,
        mode: &str,
    ) -> (r: (CompactWalk, CompactStep))
        ensures
            r.0@ == (CompactView {
                matching: matching_targets(
                    route.deep_view().targets,
                    source_state.deep_view(),
                ),
                mode: mode@,
                position: 0,
                last_error: None,
            }),
            r.1.deep_view() == compact_step(r.0@),
    {
        let mut matching: Vec<bool> = Vec::new();
        let ghost targets = route.deep_view().targets;
        let ghost source = source_state.deep_view();
        let mut i: usize = 0;
        while i < route.targets.len()
            invariant
                i <= route.targets.len(),
                targets == route.targets.deep_view(),
                source == source_state.deep_view(),
                matching@ =~= matching_targets(targets, source).take(i as int),
            decreases route.targets.len() - i,
        {
            let fits = target_matches_compaction_source(&route.targets[i], source_state);
            matching.push(fits);
            i = i + 1;
        }
        assert(matching@ =~= matching_targets(targets, source));
        let walk = CompactWalk { matching, mode: mode.to_owned(), position: 0, last_error: None };
        let step = walk.step();
        (walk, step)
    }

    fn step(&self) -> (r: CompactStep)
        ensures
            r.deep_view() == compact_step(self@),
    {
        let native = same(self.mode.as_str(), "native_responses") || same(
            self.mode.as_str(),
            "hybrid",
        );
        if native {
            let mut i: usize = self.position;
            while i < self.matching.len()
                invariant
                    next_match(self.matching@, self.position as int) == next_match(
                        self.matching@,
                        i as int,
                    ),
                    allows_native(self.mode@),
                decreases self.matching.len() - i,
            {
                if self.matching[i] {
                    return CompactStep::Try { position: i };
                }
                i = i + 1;
            }
        }
        if same(self.mode.as_str(), "local_summary") || same(self.mode.as_str(), "hybrid") {
            return CompactStep::Summarise;
        }
        let error = match &self.last_error {
            Some(error) => error.duplicate(),
            None => Error {
                kind: ErrorKind::ProtocolNotSupported,
                message: join3(
                    "Compaction unavailable for mode '",
                    self.mode.as_str(),
                    "'; no compatible /v1/responses/compact target",
                ),
            },
        };
        CompactStep::Refuse { error }
    }

    /// Takes note of what came of the target at `position`.
    pub fn advance(&mut self, position: usize, result: CompactOutcome) -> (r: CompactStep)
        requires
            position < old(self)@.matching.len(),
        ensures
            (final(self)@, r.deep_view()) == compact_on(
                old(self)@,
                position as int,
                result.deep_view(),
            ),
    {
        assert(position < self.matching.len());
        match result {
            CompactOutcome::Served => CompactStep::Answer,
            CompactOutcome::OtherProtocol => {
                self.position = position + 1;
                self.step()
            },
            CompactOutcome::Refused { error } => CompactStep::Refuse { error },
            CompactOutcome::Failed { error, fallback_eligible } => {
                if !fallback_eligible {
                    return CompactStep::Refuse { error };
                }
                self.position = position + 1;
                self.last_error = Some(error);
                self.step()
            },
        }
    }
}

/// What comes of a target by the protocol it resolved to, before it is called:
/// only one that speaks Responses is called at all.
pub fn compact_protocol(resolved: &ResolvedTargetProtocol) -> (r: Option<CompactOutcome>)
    ensures
        r.deep_view() == (if resolved.wire_api != WireApi::Responses {
            Some(CompactOutcomeView::OtherProtocol)
        } else {
            None
        }),
{
    if resolved.wire_api != WireApi::Responses {
        Some(CompactOutcome::OtherProtocol)
    } else {
        None
    }
}

/// The headers of a call for compaction.
pub open spec fn compact_header_list(upstream_key: Option<Seq<char>>) -> Seq<
    (Seq<char>, Seq<char>),
> {
    let plain = seq![("content-type"@, "application/json"@)];
    match upstream_key {
        None => plain,
        Some(key) => plain.push(("authorization"@, "Bearer "@ + key)),
    }
}

/// The headers of a call for compaction.
pub fn compact_headers(upstream_key: Option<&str>) -> (r: Vec<(String, String)>)
    ensures
        r.deep_view() == compact_header_list(upstream_key.deep_view()),
{
    let mut headers: Vec<(String, String)> = Vec::new();
    assert(headers.deep_view() =~= Seq::empty());
    add_header(&mut headers, "content-type", "application/json".to_owned());
    assert(headers.deep_view() =~= seq![("content-type"@, "application/json"@)]);
    if let Some(key) = upstream_key {
        add_header(&mut headers, "authorization", join2("Bearer ", key));
    }
    headers
}

/// A call for compaction. Its body is that of the client's request.
#[derive(Debug)]
pub struct CompactCall {
    pub url: String,
    pub headers: Vec<(String, String)>,
}

/// The mathematical value of a [`CompactCall`].
#[verifier::ext_equal]
pub struct CompactCallView {
    pub url: Seq<char>,
    pub headers: Seq<(Seq<char>, Seq<char>)>,
}

impl DeepView for CompactCall {
    type V = CompactCallView;

    open spec fn deep_view(&self) -> CompactCallView {
        CompactCallView { url: self.url@, headers: self.headers.deep_view() }
    }
}

/// The call of a target for compaction, or what comes of it without a call.
pub open spec fn compact_call_of(
    target: SnapshotView,
    wire_api: WireApi,
    upstream_key: Option<Seq<char>>,
) -> Result<CompactCallView, CompactOutcomeView> {
    if wire_api != WireApi::Responses {
        Err(CompactOutcomeView::OtherProtocol)
    } else {
        Ok(
            CompactCallView {
                url: joined_url(target.provider_base_url, "/responses/compact"@),
                headers: compact_header_list(upstream_key),
            },
        )
    }
}

/// The call of a target for compaction, or what comes of it without a call.
pub fn compact_call(
    target: &TargetSnapshot,
    resolved: &ResolvedTargetProtocol,
    upstream_key: Option<&str>,
) -> (r: Result<CompactCall, CompactOutcome>)
    ensures
        match r {
            Ok(call) => compact_call_of(
                target.deep_view(),
                resolved.wire_api,
                upstream_key.deep_view(),
            ) == Ok::<CompactCallView, CompactOutcomeView>(call.deep_view()),
            Err(outcome) => compact_call_of(
                target.deep_view(),
                resolved.wire_api,
                upstream_key.deep_view(),
            ) == Err::<CompactCallView, CompactOutcomeView>(outcome.deep_view()),
        },
{
    match compact_protocol(resolved) {
        Some(outcome) => Err(outcome),
        None => Ok(
            CompactCall { url: compact_url(target), headers: compact_headers(upstream_key) },
        ),
    }
}

/// What a walk comes to when each target left is asked and speaks another
/// protocol.
pub open spec fn walked_past(walk: CompactView) -> CompactStepView
    decreases walk.matching.len() - walk.position,
    when walk.position >= 0
    via walked_past_decreases
{
    match compact_step(walk) {
        CompactStepView::Try { position } => walked_past(
            compact_on(walk, position, CompactOutcomeView::OtherProtocol).0,
        ),
        step => step,
    }
}

#[via_fn]
proof fn walked_past_decreases(walk: CompactView) {
    lemma_next_match(walk.matching, walk.position);
}

/// Only targets that speak Responses are called for compaction. A target of any
/// other protocol is passed over, whatever it would have answered; where all are
/// and no summary is allowed, it is reported that the protocol is not supported.
pub proof fn only_responses_targets_compact(
    target: SnapshotView,
    wire_api: WireApi,
    upstream_key: Option<Seq<char>>,
    walk: CompactView,
)
    requires
        walk.position >= 0,
    ensures
        compact_call_of(target, wire_api, upstream_key) is Ok <==> wire_api == WireApi::Responses,
        wire_api != WireApi::Responses ==> compact_call_of(target, wire_api, upstream_key) == Err::<
            CompactCallView,
            CompactOutcomeView,
        >(CompactOutcomeView::OtherProtocol),
        walk.last_error is None && !allows_summary(walk.mode) ==> (walked_past(
            walk,
        ) matches CompactStepView::Refuse { error } && error.kind
            == ErrorKind::ProtocolNotSupported),
        allows_summary(walk.mode) ==> walked_past(walk) is Summarise,
    decreases walk.matching.len() - walk.position,
{
    lemma_next_match(walk.matching, walk.position);
    if let CompactStepView::Try { position } = compact_step(walk) {
        only_responses_targets_compact(
            target,
            wire_api,
            upstream_key,
            compact_on(walk, position, CompactOutcomeView::OtherProtocol).0,
        );
    }
}

/// A response is never handed to a target other than those of the provider, the
/// state scope and the model that made it.
pub proof fn compaction_stays_with_its_source(
    targets: Seq<SnapshotView>,
    source: Option<SourceView>,
    walk: CompactView,
)
    requires
        walk.matching == matching_targets(targets, source),
    ensures
        compact_step(walk) matches CompactStepView::Try { position } ==> 0 <= position
            < targets.len() && walk.position <= position && matches_source(
            targets[position],
            source,
        ),
{
    lemma_next_match(walk.matching, walk.position);
}

proof fn lemma_next_match(matching: Seq<bool>, from: int)
    ensures
        next_match(matching, from) matches Some(position) ==> from <= position < matching.len()
            && 0 <= position && matching[position],
    decreases matching.len() - from,
{
    if 0 <= from < matching.len() && !matching[from] {
        lemma_next_match(matching, from + 1);
    }
}

/// A mode that is none of the known ones does nothing: every request is
/// refused. With the summary alone no upstream is called.
pub proof fn mode_decides_who_compacts(walk: CompactView)
    ensures
        !allows_native(walk.mode) && !allows_summary(walk.mode) ==> compact_step(walk)
            == (CompactStepView::Refuse { error: unavailable_error(walk) }),
        walk.mode == "local_summary"@ ==> compact_step(walk) == CompactStepView::Summarise,
        walk.mode == "native_responses"@ ==> compact_step(walk) != CompactStepView::Summarise,
{
    reveal_strlit("native_responses");
    reveal_strlit("local_summary");
    reveal_strlit("hybrid");
    assert("native_responses"@.len() == 16);
    assert("local_summary"@.len() == 13);
    assert("hybrid"@.len() == 6);
}

/// The address at which a target compacts.
pub fn compact_url(target: &TargetSnapshot) -> (r: String)
    ensures
        r@ == joined_url(target.provider_base_url@, "/responses/compact"@),
{
    join_url(target.provider_base_url.as_str(), "/responses/compact")
}

/// A record of how a response was compacted.
#[derive(Debug)]
pub struct CompactionLineageInsert {
    pub id: String,
    pub request_id: String,
    pub route_id: Option<String>,
    pub downstream_model: String,
    pub source_response_ids_json: String,
    pub provider_id: Option<String>,
    pub upstream_model: Option<String>,
    pub state_scope: Option<String>,
    pub method: String,
    pub provider_native: bool,
    pub summarizer_model: Option<String>,
    pub prompt_version: Option<String>,
    pub source_tokens: Option<i64>,
    pub summary_tokens: Option<i64>,
}

/// The mathematical value of a [`CompactionLineageInsert`].
#[verifier::ext_equal]
pub struct LineageView {
    pub id: Seq<char>,
    pub request_id: Seq<char>,
    pub route_id: Option<Seq<char>>,
    pub downstream_model: Seq<char>,
    pub source_response_ids_json: Seq<char>,
    pub provider_id: Option<Seq<char>>,
    pub upstream_model: Option<Seq<char>>,
    pub state_scope: Option<Seq<char>>,
    pub method: Seq<char>,
    pub provider_native: bool,
    pub summarizer_model: Option<Seq<char>>,
    pub prompt_version: Option<Seq<char>>,
    pub source_tokens: Option<i64>,
    pub summary_tokens: Option<i64>,
}

impl DeepView for CompactionLineageInsert {
    type V = LineageView;

    open spec fn deep_view(&self) -> LineageView {
        LineageView {
            id: self.id@,
            request_id: self.request_id@,
            route_id: self.route_id.deep_view(),
            downstream_model: self.downstream_model@,
            source_response_ids_json: self.source_response_ids_json@,
            provider_id: self.provider_id.deep_view(),
            upstream_model: self.upstream_model.deep_view(),
            state_scope: self.state_scope.deep_view(),
            method: self.method@,
            provider_native: self.provider_native,
            summarizer_model: self.summarizer_model.deep_view(),
            prompt_version: self.prompt_version.deep_view(),
            source_tokens: self.source_tokens,
            summary_tokens: self.summary_tokens,
        }
    }
}

/// The list of the one response that was compacted.
pub open spec fn source_list(source: SourceView) -> JsonView {
    JsonView::Array(seq![JsonView::Text(source.response_id)])
}

/// The list of the response that was compacted, as text.
pub open spec fn source_list_text(source: Option<SourceView>) -> Seq<char> {
    match source {
        Some(source) => rendered_json(source_list(source)),
        None => "[]"@,
    }
}

fn source_list_value(source: &CompactionSourceState) -> (r: Json)
    ensures
        r@ == source_list(source.deep_view()),
{
    let mut items: Vec<Json> = Vec::new();
    assert(items.deep_view() =~= Seq::empty());
    add_item(&mut items, text_value(source.response_id.as_str()));
    assert(items.deep_view() =~= seq![JsonView::Text(source.response_id@)]);
    array_of(items)
}

/// The record of a compaction by an upstream.
pub open spec fn native_lineage(
    id: Seq<char>,
    request_id: Seq<char>,
    route: RouteSnapshotView,
    target: SnapshotView,
    source: Option<SourceView>,
) -> LineageView {
    LineageView {
        id,
        request_id,
        route_id: Some(route.route_id),
        downstream_model: route.downstream_model,
        source_response_ids_json: source_list_text(source),
        provider_id: Some(target.provider_id),
        upstream_model: Some(target.upstream_model),
        state_scope: target.state_scope,
        method: "native_responses"@,
        provider_native: true,
        summarizer_model: None,
        prompt_version: None,
        source_tokens: None,
        summary_tokens: None,
    }
}

/// The log line of a compaction that an upstream refused.
pub open spec fn refused_compact_log(
    request_id: Seq<char>,
    raw: JsonView,
    target: SnapshotView,
    status: u16,
) -> LogView {
    LogView {
        request_id,
        downstream_key_hash: None,
        downstream_model: Some(text_or(raw, "model"@, "unknown"@)),
        route_id: None,
        target_id: Some(target.target_id),
        provider_id: Some(target.provider_id),
        upstream_model: Some(target.upstream_model),
        wire_api: Some("responses"@),
        status_code: Some(status as i32),
        error_kind: Some("compact_error"@),
        latency_ms: None,
        input_tokens: None,
        output_tokens: None,
    }
}

/// What an upstream's answer to a compaction comes to.
#[derive(Debug)]
pub enum CompactAnswer {
    /// The answer for the client, with the record to be stored.
    Compacted { answer: Json, lineage: CompactionLineageInsert },
    /// The error, with the line to be logged.
    Refused { error: Error, log: LogEntry },
    /// The answer cannot be read.
    Unreadable { error: Error },
}

/// The mathematical value of a [`CompactAnswer`].
#[verifier::ext_equal]
pub enum CompactAnswerView {
    Compacted { answer: JsonView, lineage: LineageView },
    Refused { error: ErrorView, log: LogView },
    Unreadable { error: ErrorView },
}

impl DeepView for CompactAnswer {
    type V = CompactAnswerView;

    open spec fn deep_view(&self) -> CompactAnswerView {
        match self {
            CompactAnswer::Compacted { answer, lineage } => CompactAnswerView::Compacted {
                answer: answer@,
                lineage: lineage.deep_view(),
            },
            CompactAnswer::Refused { error, log } => CompactAnswerView::Refused {
                error: error.deep_view(),
                log: log.deep_view(),
            },
            CompactAnswer::Unreadable { error } => CompactAnswerView::Unreadable {
                error: error.deep_view(),
            },
        }
    }
}

/// What an upstream's answer to a compaction comes to, given what its body
/// reads as.
pub open spec fn compact_answer(
    lineage_id: Seq<char>,
    request_id: Seq<char>,
    route: RouteSnapshotView,
    target: SnapshotView,
    source: Option<SourceView>,
    raw: JsonView,
    status: u16,
    body: Seq<u8>,
    read: Result<JsonView, Seq<char>>,
) -> CompactAnswerView {
    if status < 200 || status >= 300 {
        CompactAnswerView::Refused {
            error: status_error(status, body),
            log: refused_compact_log(request_id, raw, target, status),
        }
    } else {
        match read {
            Err(detail) => CompactAnswerView::Unreadable {
                error: error_of(
                    ErrorKind::UpstreamUnavailable,
                    "Compact endpoint returned invalid JSON: "@ + detail,
                ),
            },
            Ok(answer) => CompactAnswerView::Compacted {
                answer,
                lineage: native_lineage(lineage_id, request_id, route, target, source),
            },
        }
    }
}

/// What an upstream's answer to a compaction comes to, under a given id for the
/// record.
pub fn try_target_compact_as(
    lineage_id: String,
    request_id: &str,
    route: &RouteSnapshot,
    target: &TargetSnapshot,
    source_state: Option<&CompactionSourceState>,
    raw: &Json,
    status: u16,
    body: &Vec<u8>,
) -> (r: CompactAnswer)
    ensures
        r.deep_view() == compact_answer(
            lineage_id@,
            request_id@,
            route.deep_view(),
            target.deep_view(),
            source_state.deep_view(),
            raw@,
            status,
            body@,
            parsed_json_bytes(body@),
        ),
{
    if status < 200 || status >= 300 {
        let log = LogEntry {
            request_id: request_id.to_owned(),
            downstream_key_hash: None,
            downstream_model: Some(text_field_or(raw, "model", "unknown").to_owned()),
            route_id: None,
            target_id: Some(target.target_id.clone()),
            provider_id: Some(target.provider_id.clone()),
            upstream_model: Some(target.upstream_model.clone()),
            wire_api: Some("responses".to_owned()),
            status_code: Some(status as i32),
            error_kind: Some("compact_error".to_owned()),
            latency_ms: None,
            input_tokens: None,
            output_tokens: None,
        };
        return CompactAnswer::Refused { error: map_upstream_status(status, body), log };
    }
    let answer = match parse_json_bytes(body) {
        Ok(answer) => answer,
        Err(detail) => {
            return CompactAnswer::Unreadable {
                error: Error::about(
                    ErrorKind::UpstreamUnavailable,
                    "Compact endpoint returned invalid JSON: ",
                    detail.as_str(),
                ),
            };
        },
    };
    let source_response_ids_json = match source_state {
        Some(source) => {
            let list = source_list_value(source);
            render_json(&list)
        },
        None => "[]".to_owned(),
    };
    let lineage = CompactionLineageInsert {
        id: lineage_id,
        request_id: request_id.to_owned(),
        route_id: Some(route.route_id.clone()),
        downstream_model: route.downstream_model.clone(),
        source_response_ids_json,
        provider_id: Some(target.provider_id.clone()),
        upstream_model: Some(target.upstream_model.clone()),
        state_scope: copy_opt(&target.state_scope),
        method: "native_responses".to_owned(),
        provider_native: true,
        summarizer_model: None,
        prompt_version: None,
        source_tokens: None,
        summary_tokens: None,
    };
    CompactAnswer::Compacted { answer, lineage }
}

/// What an upstream's answer to a compaction comes to. The record gets a fresh
/// id.
pub fn try_target_compact(
    request_id: &str,
    route: &RouteSnapshot,
    target: &TargetSnapshot,
    source_state: Option<&CompactionSourceState>,
    raw: &Json,
    status: u16,
    body: &Vec<u8>,
) -> (r: CompactAnswer)
    ensures
        exists|fresh: Seq<char>| #[trigger]
            compact_answer(
                "clg_"@ + fresh,
                request_id@,
                route.deep_view(),
                target.deep_view(),
                source_state.deep_view(),
                raw@,
                status,
                body@,
                parsed_json_bytes(body@),
            ) == r.deep_view(),
{
    let fresh = fresh_v7();
    let lineage_id = join2("clg_", fresh.as_str());
    let r = try_target_compact_as(
        lineage_id,
        request_id,
        route,
        target,
        source_state,
        raw,
        status,
        body,
    );
    assert(compact_answer(
        "clg_"@ + fresh@,
        request_id@,
        route.deep_view(),
        target.deep_view(),
        source_state.deep_view(),
        raw@,
        status,
        body@,
        parsed_json_bytes(body@),
    ) == r.deep_view());
    r
}

/// The texts of the blocks of a message, each on a line of its own.
pub open spec fn block_lines(blocks: Seq<JsonView>) -> Seq<char>
    decreases blocks.len(),
{
    if blocks.len() == 0 {
        Seq::empty()
    } else {
        let front = block_lines(blocks.drop_last());
        match blocks.last().get_str("text"@) {
            Some(text) => front + text + "\n"@,
            None => front,
        }
    }
}

/// What an item adds to the visible transcript: the texts of a visible message,
/// or the name and the arguments of a call.
pub open spec fn item_lines(item: ItemView) -> Seq<char> {
    let content = stored_content(item.content_json);
    if item.item_type == "message"@ && item.visible != 0 {
        match content.as_array() {
            Some(blocks) => block_lines(blocks),
            None => Seq::empty(),
        }
    } else if item.item_type == "function_call"@ {
        "tool "@ + text_or(content, "name"@, "tool"@) + ": "@ + text_or(
            content,
            "arguments"@,
            "{}"@,
        ) + "\n"@
    } else {
        Seq::empty()
    }
}

/// What was visible of a response, line by line.
pub open spec fn visible_transcript(items: Seq<ItemView>) -> Seq<char>
    decreases items.len(),
{
    if items.len() == 0 {
        Seq::empty()
    } else {
        visible_transcript(items.drop_last()) + item_lines(items.last())
    }
}

fn lines_of_blocks(blocks: &Vec<Json>) -> (r: String)
    ensures
        r@ == block_lines(blocks.deep_view()),
{
    let ghost views = blocks.deep_view();
    let mut text: String = "".to_owned();
    proof {
        reveal_strlit("");
        assert(views.take(0) =~= Seq::empty());
        assert(text@ =~= Seq::empty());
    }
    let mut i: usize = 0;
    while i < blocks.len()
        invariant
            i <= blocks.len(),
            views == blocks.deep_view(),
            text@ == block_lines(views.take(i as int)),
        decreases blocks.len() - i,
    {
        assert(views.take(i + 1).drop_last() =~= views.take(i as int));
        if let Some(line) = blocks[i].get_str("text") {
            text.append(line);
            text.append("\n");
        }
        i = i + 1;
    }
    assert(views.take(views.len() as int) =~= views);
    text
}

fn lines_of_item(item: &ItemRecord) -> (r: String)
    ensures
        r@ == item_lines(item.deep_view()),
{
    proof {
        reveal_strlit("");
        assert(""@ =~= Seq::<char>::empty());
    }
    if same(item.item_type.as_str(), "message") && item.visible != 0 {
        let content = load_content(item.content_json.as_str());
        return match content.as_array() {
            Some(blocks) => lines_of_blocks(blocks),
            None => "".to_owned(),
        };
    }
    if same(item.item_type.as_str(), "function_call") {
        let content = load_content(item.content_json.as_str());
        let name = text_field_or(&content, "name", "tool");
        let arguments = text_field_or(&content, "arguments", "{}");
        return join5("tool ", name, ": ", arguments, "\n");
    }
    "".to_owned()
}

/// What was visible of a response, line by line.
pub fn build_visible_transcript_for_summary(items: &Vec<ItemRecord>) -> (r: String)
    ensures
        r@ == visible_transcript(items.deep_view()),
{
    let ghost views = items.deep_view();
    let mut text: String = "".to_owned();
    proof {
        reveal_strlit("");
        assert(views.take(0) =~= Seq::empty());
        assert(text@ =~= Seq::empty());
    }
    let mut i: usize = 0;
    while i < items.len()
        invariant
            i <= items.len(),
            views == items.deep_view(),
            text@ == visible_transcript(views.take(i as int)),
        decreases items.len() - i,
    {
        assert(views.take(i + 1).drop_last() =~= views.take(i as int));
        let lines = lines_of_item(&items[i]);
        text.append(lines.as_str());
        i = i + 1;
    }
    assert(views.take(views.len() as int) =~= views);
    text
}

/// A rough count of the tokens of a text: one for each four characters begun,
/// and at least one.
pub open spec fn tokens_of(text: Seq<char>) -> int {
    if text.len() == 0 {
        1
    } else {
        ((text.len() + 3) / 4) as int
    }
}

/// A rough count of the tokens of a text.
pub fn approximate_tokens(text: &str) -> (r: i64)
    ensures
        r == tokens_of(text@),
        1 <= r <= 0x4000_0000_0000_0000,
{
    let chars = chars_of(text);
    let n: usize = chars.len();
    if n == 0 {
        return 1;
    }
    let whole: usize = n / 4;
    let rest: usize = if n % 4 == 0 {
        0
    } else {
        1
    };
    (whole + rest) as i64
}

/// The transcript to summarise; a remark where nothing was visible.
pub open spec fn summary_source(items: Seq<ItemView>) -> Seq<char> {
    if is_blank(visible_transcript(items)) {
        "No visible transcript available for local summary."@
    } else {
        visible_transcript(items)
    }
}

/// The summary: the front of the transcript, up to a length.
pub open spec fn summary_text(items: Seq<ItemView>, max_chars: usize) -> Seq<char> {
    first_chars(
        summary_source(items),
        if max_chars == 0 {
            1
        } else {
            max_chars as nat
        },
    )
}

/// How summaries are made.
#[derive(Debug)]
pub struct SummarySettings {
    pub max_chars: usize,
    pub model: Option<String>,
    pub prompt_version: Option<String>,
}

/// The name under which summaries are made.
pub open spec fn summarizer(settings: SummarySettings) -> Seq<char> {
    match settings.model {
        Some(model) => model@,
        None => "modelwire-local-summary"@,
    }
}

/// The version under which summaries are made.
pub open spec fn summary_version(settings: SummarySettings) -> Seq<char> {
    match settings.prompt_version {
        Some(version) => version@,
        None => "v1"@,
    }
}

/// The record of a summary.
pub open spec fn summary_lineage(
    lineage_id: Seq<char>,
    request_id: Seq<char>,
    route: RouteSnapshotView,
    source: SourceView,
    items: Seq<ItemView>,
    settings: SummarySettings,
) -> LineageView {
    LineageView {
        id: lineage_id,
        request_id,
        route_id: Some(route.route_id),
        downstream_model: route.downstream_model,
        source_response_ids_json: rendered_json(source_list(source)),
        provider_id: Some(source.provider_id),
        upstream_model: source.upstream_model,
        state_scope: source.state_scope,
        method: "local_summary"@,
        provider_native: false,
        summarizer_model: Some(summarizer(settings)),
        prompt_version: Some(summary_version(settings)),
        source_tokens: Some(tokens_of(summary_source(items)) as i64),
        summary_tokens: Some(tokens_of(summary_text(items, settings.max_chars)) as i64),
    }
}

/// The sum of two counts, up to the largest there is.
pub open spec fn total_of(a: int, b: int) -> int {
    if a + b > i64::MAX {
        i64::MAX as int
    } else {
        a + b
    }
}

/// The answer that carries a summary.
pub open spec fn summary_answer(
    answer_id: Seq<char>,
    lineage_id: Seq<char>,
    route: RouteSnapshotView,
    source: SourceView,
    items: Seq<ItemView>,
    settings: SummarySettings,
) -> JsonView {
    let source_tokens = tokens_of(summary_source(items));
    let summary_tokens = tokens_of(summary_text(items, settings.max_chars));
    JsonView::Object(
        seq![
            ("id"@, JsonView::Text(answer_id)),
            ("lineage_id"@, JsonView::Text(lineage_id)),
            ("method"@, JsonView::Text("local_summary"@)),
            ("model"@, JsonView::Text(route.downstream_model)),
            ("object"@, JsonView::Text("response.compaction"@)),
            ("provider_native"@, JsonView::Bool(false)),
            ("source_response_ids"@, source_list(source)),
            ("status"@, JsonView::Text("completed"@)),
            (
                "summary"@,
                JsonView::Object(
                    seq![
                        ("prompt_version"@, JsonView::Text(summary_version(settings))),
                        ("summarizer_model"@, JsonView::Text(summarizer(settings))),
                        ("text"@, JsonView::Text(summary_text(items, settings.max_chars))),
                        ("type"@, JsonView::Text("modelwire_local_summary"@)),
                    ],
                ),
            ),
            (
                "usage"@,
                JsonView::Object(
                    seq![
                        ("input_tokens"@, integer(source_tokens as i64)),
                        ("output_tokens"@, integer(summary_tokens as i64)),
                        ("total_tokens"@, integer(total_of(source_tokens, summary_tokens) as i64)),
                    ],
                ),
            ),
        ],
    )
}

/// A summary: the record to be stored, and the answer for the client once it is.
#[derive(Debug)]
pub struct LocalSummary {
    pub lineage: CompactionLineageInsert,
    pub answer: Json,
}

/// The mathematical value of a [`LocalSummary`].
#[verifier::ext_equal]
pub struct SummaryView {
    pub lineage: LineageView,
    pub answer: JsonView,
}

impl DeepView for LocalSummary {
    type V = SummaryView;

    open spec fn deep_view(&self) -> SummaryView {
        SummaryView { lineage: self.lineage.deep_view(), answer: self.answer@ }
    }
}

/// The summary of a response, given the items that the store holds of it.
pub open spec fn summarised(
    answer_id: Seq<char>,
    lineage_id: Seq<char>,
    request_id: Seq<char>,
    route: RouteSnapshotView,
    source: Option<SourceView>,
    items: Result<Seq<ItemView>, Seq<char>>,
    settings: SummarySettings,
) -> Result<SummaryView, ErrorView> {
    match source {
        None => Err(
            error_of(
                ErrorKind::RequestInvalid,
                "local_summary compaction requires response_id or previous_response_id"@,
            ),
        ),
        Some(source) => match items {
            Err(detail) => Err(
                error_of(
                    ErrorKind::InternalError,
                    "Failed to load source response items for local summary: "@ + detail,
                ),
            ),
            Ok(items) => Ok(
                SummaryView {
                    lineage: summary_lineage(
                        lineage_id,
                        request_id,
                        route,
                        source,
                        items,
                        settings,
                    ),
                    answer: summary_answer(
                        answer_id,
                        lineage_id,
                        route,
                        source,
                        items,
                        settings,
                    ),
                },
            ),
        },
    }
}

fn opt_or(text: &Option<String>, default: &str) -> (r: String)
    ensures
        r@ == (match *text {
            Some(text) => text@,
            None => default@,
        }),
{
    match text {
        Some(text) => text.clone(),
        None => default.to_owned(),
    }
}

fn summary_value(text: &str, model: &str, version: &str) -> (r: Json)
    ensures
        r@ == JsonView::Object(
            seq![
                ("prompt_version"@, JsonView::Text(version@)),
                ("summarizer_model"@, JsonView::Text(model@)),
                ("text"@, JsonView::Text(text@)),
                ("type"@, JsonView::Text("modelwire_local_summary"@)),
            ],
        ),
{
    let mut members = no_members();
    add_member(&mut members, "prompt_version", text_value(version));
    add_member(&mut members, "summarizer_model", text_value(model));
    add_member(&mut members, "text", text_value(text));
    add_member(&mut members, "type", text_value("modelwire_local_summary"));
    let r = object_of(members);
    assert(r@->Object_0 =~= seq![
        ("prompt_version"@, JsonView::Text(version@)),
        ("summarizer_model"@, JsonView::Text(model@)),
        ("text"@, JsonView::Text(text@)),
        ("type"@, JsonView::Text("modelwire_local_summary"@)),
    ]);
    r
}

fn summary_usage(source_tokens: i64, summary_tokens: i64) -> (r: Json)
    requires
        0 <= source_tokens,
        0 <= summary_tokens,
    ensures
        r@ == JsonView::Object(
            seq![
                ("input_tokens"@, integer(source_tokens)),
                ("output_tokens"@, integer(summary_tokens)),
                (
                    "total_tokens"@,
                    integer(total_of(source_tokens as int, summary_tokens as int) as i64),
                ),
            ],
        ),
{
    let total: i64 = match source_tokens.checked_add(summary_tokens) {
        Some(total) => total,
        None => i64::MAX,
    };
    let mut members = no_members();
    add_member(&mut members, "input_tokens", integer_value(source_tokens));
    add_member(&mut members, "output_tokens", integer_value(summary_tokens));
    add_member(&mut members, "total_tokens", integer_value(total));
    let r = object_of(members);
    assert(r@->Object_0 =~= seq![
        ("input_tokens"@, integer(source_tokens)),
        ("output_tokens"@, integer(summary_tokens)),
        (
            "total_tokens"@,
            integer(total_of(source_tokens as int, summary_tokens as int) as i64),
        ),
    ]);
    r
}

/// The summary of a response, under given ids. `items` is what the store holds
/// of it.
pub fn perform_local_summary_compact_as(
    answer_id: &str,
    lineage_id: &str,
    request_id: &str,
    route: &RouteSnapshot,
    source_state: Option<&CompactionSourceState>,
    items: Result<Vec<ItemRecord>, String>,
    settings: &SummarySettings,
) -> (r: Result<LocalSummary, Error>)
    ensures
        outcome(r) == summarised(
            answer_id@,
            lineage_id@,
            request_id@,
            route.deep_view(),
            source_state.deep_view(),
            stored(items),
            *settings,
        ),
{
    let source = match source_state {
        Some(source) => source,
        None => {
            return Err(
                Error::new(
                    ErrorKind::RequestInvalid,
                    "local_summary compaction requires response_id or previous_response_id",
                ),
            );
        },
    };
    let ghost rows = stored(items);
    let items = match items {
        Ok(items) => items,
        Err(detail) => {
            return Err(
                Error::about(
                    ErrorKind::InternalError,
                    "Failed to load source response items for local summary: ",
                    detail.as_str(),
                ),
            );
        },
    };
    let ghost views = items.deep_view();
    let mut transcript = build_visible_transcript_for_summary(&items);
    if trim(transcript.as_str()).is_empty() {
        transcript = "No visible transcript available for local summary.".to_owned();
    }
    assert(transcript@ == summary_source(views));
    let source_tokens: i64 = approximate_tokens(transcript.as_str());
    let max_chars: usize = if settings.max_chars == 0 {
        1
    } else {
        settings.max_chars
    };
    let summary = take_chars(transcript.as_str(), max_chars);
    assert(summary@ == summary_text(views, settings.max_chars));
    let summary_tokens: i64 = approximate_tokens(summary.as_str());
    let summarizer_model = opt_or(&settings.model, "modelwire-local-summary");
    let prompt_version = opt_or(&settings.prompt_version, "v1");
    let list = source_list_value(source);
    let source_response_ids_json = render_json(&list);

    let mut members = no_members();
    add_member(&mut members, "id", text_value(answer_id));
    add_member(&mut members, "lineage_id", text_value(lineage_id));
    add_member(&mut members, "method", text_value("local_summary"));
    add_member(&mut members, "model", text_value(route.downstream_model.as_str()));
    add_member(&mut members, "object", text_value("response.compaction"));
    add_member(&mut members, "provider_native", Json::Bool(false));
    add_member(&mut members, "source_response_ids", list);
    add_member(&mut members, "status", text_value("completed"));
    add_member(
        &mut members,
        "summary",
        summary_value(summary.as_str(), summarizer_model.as_str(), prompt_version.as_str()),
    );
    add_member(&mut members, "usage", summary_usage(source_tokens, summary_tokens));
    let answer = object_of(members);
    assert(answer@->Object_0 =~= summary_answer(
        answer_id@,
        lineage_id@,
        route.deep_view(),
        source.deep_view(),
        views,
        *settings,
    )->Object_0);
    let lineage = CompactionLineageInsert {
        id: lineage_id.to_owned(),
        request_id: request_id.to_owned(),
        route_id: Some(route.route_id.clone()),
        downstream_model: route.downstream_model.clone(),
        source_response_ids_json,
        provider_id: Some(source.provider_id.clone()),
        upstream_model: copy_opt(&source.upstream_model),
        state_scope: copy_opt(&source.state_scope),
        method: "local_summary".to_owned(),
        provider_native: false,
        summarizer_model: Some(summarizer_model),
        prompt_version: Some(prompt_version),
        source_tokens: Some(source_tokens),
        summary_tokens: Some(summary_tokens),
    };
    Ok(LocalSummary { lineage, answer })
}

/// The summary of a response, under fresh ids.
pub fn perform_local_summary_compact(
    request_id: &str,
    route: &RouteSnapshot,
    source_state: Option<&CompactionSourceState>,
    items: Result<Vec<ItemRecord>, String>,
    settings: &SummarySettings,
) -> (r: Result<LocalSummary, Error>)
    ensures
        exists|first: Seq<char>, second: Seq<char>| #[trigger]
            summarised(
                "cmp_mw_"@ + first,
                "clg_"@ + second,
                request_id@,
                route.deep_view(),
                source_state.deep_view(),
                stored(items),
                *settings,
            ) == outcome(r),
{
    let second = fresh_v7();
    let first = fresh_v7();
    let lineage_id = join2("clg_", second.as_str());
    let answer_id = join2("cmp_mw_", first.as_str());
    let r = perform_local_summary_compact_as(
        answer_id.as_str(),
        lineage_id.as_str(),
        request_id,
        route,
        source_state,
        items,
        settings,
    );
    assert(summarised(
        "cmp_mw_"@ + first@,
        "clg_"@ + second@,
        request_id@,
        route.deep_view(),
        source_state.deep_view(),
        stored(items),
        *settings,
    ) == outcome(r));
    r
}

/// The answer that carries a summary, once the store was asked to keep its
/// record: no summary is given out that is not on record.
pub fn finish_local_summary(summary: LocalSummary, stored: Result<(), String>) -> (r: Result<
    Json,
    Error,
>)
    ensures
        match stored {
            Ok(()) => r matches Ok(answer) && answer@ == summary.answer@,
            Err(detail) => r matches Err(error) && error.deep_view() == error_of(
                ErrorKind::InternalError,
                "Failed to persist local summary lineage: "@ + detail@,
            ),
        },
{
    match stored {
        Ok(()) => Ok(summary.answer),
        Err(detail) => Err(
            Error::about(
                ErrorKind::InternalError,
                "Failed to persist local summary lineage: ",
                detail.as_str(),
            ),
        ),
    }
}

/// Reasoning and hidden messages leave no trace in a summary: an item that is
/// neither a visible message nor a call changes nothing, wherever it stands.
pub proof fn hidden_items_leave_no_trace(
    before: Seq<ItemView>,
    hidden: ItemView,
    after: Seq<ItemView>,
    max_chars: usize,
)
    requires
        hidden.item_type != "function_call"@,
        hidden.item_type == "message"@ ==> hidden.visible == 0,
    ensures
        visible_transcript(before.push(hidden) + after) == visible_transcript(before + after),
        summary_text(before.push(hidden) + after, max_chars) == summary_text(
            before + after,
            max_chars,
        ),
    decreases after.len(),
{
    if after.len() == 0 {
        assert(before.push(hidden) + after =~= before.push(hidden));
        assert(before + after =~= before);
        assert(before.push(hidden).drop_last() =~= before);
        assert(visible_transcript(before) + item_lines(hidden) =~= visible_transcript(before));
    } else {
        hidden_items_leave_no_trace(before, hidden, after.drop_last(), max_chars);
        assert((before.push(hidden) + after).drop_last() =~= before.push(hidden)
            + after.drop_last());
        assert((before + after).drop_last() =~= before + after.drop_last());
    }
}

/// A summary is never longer than the limit, and never counts more tokens than
/// what it was made from.
pub proof fn summary_respects_its_limit(items: Seq<ItemView>, max_chars: usize)
    ensures
        max_chars > 0 ==> summary_text(items, max_chars).len() <= max_chars,
        tokens_of(summary_text(items, max_chars)) <= tokens_of(summary_source(items)),
        summary_text(items, max_chars).is_prefix_of(summary_source(items)),
{
}

/// A request names the response to compact under either of two names, of which the
/// one for the response before comes first.
pub proof fn source_is_the_named_response(raw: JsonView)
    ensures
        raw.get_str("previous_response_id"@) is Some ==> source_id(raw) == raw.get_str(
            "previous_response_id"@,
        ),
        raw.get_str("previous_response_id"@) is None ==> source_id(raw) == raw.get_str(
            "response_id"@,
        ),
{
}

/// The response to compact is told by its own record, and is found just where the
/// store holds one that says who made it. A request that names none has none.
pub proof fn source_is_told_by_its_record(
    raw: JsonView,
    record: Result<Option<ResponseRecordView>, Seq<char>>,
)
    ensures
        source_id(raw) is None <==> loaded_source(raw, record) == Ok::<
            Option<SourceView>,
            ErrorView,
        >(None),
        source_id(raw) is Some ==> (loaded_source(raw, record) is Ok <==> (record matches Ok(
            Some(found),
        ) && found.provider_id is Some)),
        loaded_source(raw, record) matches Ok(Some(source)) ==> (record matches Ok(Some(found))
            && source.response_id == found.id && Some(source.provider_id) == found.provider_id
            && source.upstream_model == found.upstream_model && source.state_scope
            == found.state_scope),
        loaded_source(raw, record) matches Err(error) ==> error.kind == match record {
            Err(_) => ErrorKind::InternalError,
            Ok(None) => ErrorKind::StateNotFound,
            Ok(Some(_)) => ErrorKind::StateNotContinuable,
        },
{
}

/// A target may compact a response just where provider and state scope are those that
/// made it, and the model is where that is known; without a response any target may.
pub proof fn target_compacts_its_own(target: SnapshotView, source: SourceView)
    ensures
        matches_source(target, Some(source)) <==> target.provider_id == source.provider_id
            && target.state_scope == source.state_scope && (source.upstream_model is None
            || source.upstream_model == Some(target.upstream_model)),
        matches_source(target, None),
{
}

/// Upstreams compact in two of the modes and the relay in two, and one mode allows
/// both.
pub proof fn modes_allow_what_they_say(mode: Seq<char>)
    ensures
        allows_native(mode) && allows_summary(mode) <==> mode == "hybrid"@,
        allows_native(mode) && !allows_summary(mode) <==> mode == "native_responses"@,
        allows_summary(mode) && !allows_native(mode) <==> mode == "local_summary"@,
{
    reveal_strlit("native_responses");
    reveal_strlit("local_summary");
    reveal_strlit("hybrid");
    assert("native_responses"@.len() == 16);
    assert("local_summary"@.len() == 13);
    assert("hybrid"@.len() == 6);
}

/// The target that is tried next is the first from the walk's position on that
/// matches; where upstreams may compact, one is tried as long as any is left.
pub proof fn first_matching_target_is_tried(walk: CompactView)
    requires
        walk.position >= 0,
    ensures
        compact_step(walk) matches CompactStepView::Try { position } ==> {
            &&& walk.position <= position < walk.matching.len() && walk.matching[position]
            &&& forall|i: int| walk.position <= i < position ==> !#[trigger] walk.matching[i]
            &&& allows_native(walk.mode)
        },
        compact_step(walk) is Try <==> allows_native(walk.mode) && exists|i: int|
            walk.position <= i < walk.matching.len() && #[trigger] walk.matching[i],
        !(compact_step(walk) is Try) ==> (compact_step(walk) is Summarise <==> allows_summary(
            walk.mode,
        )) && !(compact_step(walk) is Answer),
        compact_step(walk) matches CompactStepView::Refuse { error } ==> {
            &&& walk.last_error matches Some(last) ==> error == last
            &&& walk.last_error is None ==> error.kind == ErrorKind::ProtocolNotSupported
                && contains_text(error.message, walk.mode)
        },
{
    lemma_first_match(walk.matching, walk.position);
    if let CompactStepView::Refuse { error } = compact_step(walk) {
        if walk.last_error is None {
            let front = "Compaction unavailable for mode '"@;
            assert(error.message.subrange(
                front.len() as int,
                (front.len() + walk.mode.len()) as int,
            ) =~= walk.mode);
            assert(occurs_at(error.message, walk.mode, front.len() as int));
        }
    }
}

proof fn lemma_first_match(matching: Seq<bool>, from: int)
    requires
        from >= 0,
    ensures
        next_match(matching, from) matches Some(position) ==> from <= position < matching.len()
            && matching[position] && forall|i: int| from <= i < position ==> !#[trigger] matching[i],
        next_match(matching, from) is None ==> forall|i: int|
            from <= i < matching.len() ==> !#[trigger] matching[i],
    decreases matching.len() - from,
{
    if from < matching.len() && !matching[from] {
        lemma_first_match(matching, from + 1);
    }
}

/// Each target matches by itself.
pub proof fn targets_match_one_by_one(targets: Seq<SnapshotView>, source: Option<SourceView>)
    ensures
        matching_targets(targets, source).len() == targets.len(),
        forall|i: int|
            0 <= i < targets.len() ==> #[trigger] matching_targets(targets, source)[i]
                == matches_source(targets[i], source),
{
}

/// An answer is passed on and a refusal reported as it is; after a target of another
/// protocol, or one that failed in a way that lets the next try, the walk goes on
/// behind that target, and only a failure is kept to be reported.
pub proof fn compaction_goes_on_behind_the_target(
    walk: CompactView,
    position: int,
    result: CompactOutcomeView,
)
    ensures
        ({
            let (after, step) = compact_on(walk, position, result);
            let failed = result is Failed && result->fallback_eligible;
            let goes_on = result is OtherProtocol || failed;
            &&& after.matching == walk.matching && after.mode == walk.mode
            &&& goes_on ==> after.position == position + 1 && step == compact_step(after)
            &&& !goes_on ==> after == walk
            &&& failed ==> after.last_error == Some(result->Failed_error)
            &&& !failed ==> after.last_error == walk.last_error
            &&& result is Served ==> step is Answer
            &&& result is Refused ==> step == (CompactStepView::Refuse {
                error: result->Refused_error,
            })
            &&& result is Failed && !failed ==> step == (CompactStepView::Refuse {
                error: result->Failed_error,
            })
        }),
{
}

/// A call for compaction goes to the target's own address, with the key as a bearer
/// where there is one.
pub proof fn compact_call_goes_to_the_target(target: SnapshotView, key: Seq<char>)
    ensures
        compact_call_of(target, WireApi::Responses, Some(key)) matches Ok(call) && {
            &&& call.url == joined_url(target.provider_base_url, "/responses/compact"@)
            &&& call.headers == seq![
                ("content-type"@, "application/json"@),
                ("authorization"@, "Bearer "@ + key),
            ]
        },
        compact_call_of(target, WireApi::Responses, None) matches Ok(call) && call.headers == seq![
            ("content-type"@, "application/json"@),
        ],
{
    assert(compact_header_list(Some(key)) =~= seq![
        ("content-type"@, "application/json"@),
        ("authorization"@, "Bearer "@ + key),
    ]);
}

/// An upstream's answer is passed on as it reads, with a record of who compacted what;
/// an answer without success is refused by its status and logged, and one that cannot
/// be read is an error of the upstream.
pub proof fn compact_answer_is_passed_on(
    lineage_id: Seq<char>,
    request_id: Seq<char>,
    route: RouteSnapshotView,
    target: SnapshotView,
    source: Option<SourceView>,
    raw: JsonView,
    status: u16,
    body: Seq<u8>,
    read: Result<JsonView, Seq<char>>,
)
    ensures
        ({
            let answer = compact_answer(
                lineage_id,
                request_id,
                route,
                target,
                source,
                raw,
                status,
                body,
                read,
            );
            &&& answer is Refused <==> !(200 <= status <= 299)
            &&& answer is Compacted <==> 200 <= status <= 299 && read is Ok
            &&& answer matches CompactAnswerView::Refused { error, log } ==> {
                &&& error == status_error(status, body)
                &&& log.request_id == request_id && log.status_code == Some(status as i32)
                &&& log.target_id == Some(target.target_id)
                &&& log.provider_id == Some(target.provider_id)
                &&& log.upstream_model == Some(target.upstream_model)
                &&& log.downstream_model == match raw.get_str("model"@) {
                    Some(model) => Some(model),
                    None => Some("unknown"@),
                }
                &&& log.error_kind == Some("compact_error"@) && log.wire_api == Some("responses"@)
            }
            &&& answer matches CompactAnswerView::Unreadable { error } ==> error.kind
                == ErrorKind::UpstreamUnavailable
            &&& answer matches CompactAnswerView::Compacted { answer, lineage } ==> {
                &&& read == Ok::<JsonView, Seq<char>>(answer)
                &&& lineage.id == lineage_id && lineage.request_id == request_id
                &&& lineage.route_id == Some(route.route_id)
                &&& lineage.downstream_model == route.downstream_model
                &&& lineage.provider_id == Some(target.provider_id)
                &&& lineage.upstream_model == Some(target.upstream_model)
                &&& lineage.state_scope == target.state_scope
                &&& lineage.provider_native && lineage.method == "native_responses"@
                &&& lineage.summarizer_model is None && lineage.prompt_version is None
                &&& lineage.source_response_ids_json == match source {
                    Some(source) => rendered_json(
                        JsonView::Array(seq![JsonView::Text(source.response_id)]),
                    ),
                    None => "[]"@,
                }
            }
        }),
{
}

/// The transcript grows by what each item adds, in the order of the items: the texts
/// of a visible message, each on a line, or the name and arguments of a call.
pub proof fn transcript_grows_item_by_item(items: Seq<ItemView>, item: ItemView)
    ensures
        visible_transcript(items.push(item)) == visible_transcript(items) + item_lines(item),
        visible_transcript(Seq::empty()).len() == 0,
        item.item_type == "function_call"@ ==> {
            let content = stored_content(item.content_json);
            item_lines(item) == "tool "@ + (match content.get_str("name"@) {
                Some(name) => name,
                None => "tool"@,
            }) + ": "@ + (match content.get_str("arguments"@) {
                Some(arguments) => arguments,
                None => "{}"@,
            }) + "\n"@
        },
        item.item_type == "message"@ && item.visible != 0 ==> match stored_content(
            item.content_json,
        ) {
            JsonView::Array(blocks) => item_lines(item) == block_lines(blocks),
            _ => item_lines(item).len() == 0,
        },
        item.item_type == "message"@ && item.visible == 0 ==> item_lines(item).len() == 0,
        item.item_type != "message"@ && item.item_type != "function_call"@ ==> item_lines(
            item,
        ).len() == 0,
{
    reveal_strlit("message");
    reveal_strlit("function_call");
    assert("message"@.len() != "function_call"@.len());
    assert(items.push(item).drop_last() =~= items);
}

/// The lines of blocks grow by the text of each block that has one.
pub proof fn block_lines_grow_block_by_block(blocks: Seq<JsonView>, block: JsonView)
    ensures
        block.get_str("text"@) matches Some(text) ==> block_lines(blocks.push(block))
            == block_lines(blocks) + text + "\n"@,
        block.get_str("text"@) is None ==> block_lines(blocks.push(block)) == block_lines(blocks),
        block_lines(Seq::empty()).len() == 0,
{
    assert(blocks.push(block).drop_last() =~= blocks);
}

/// Four characters make a token, and what is left over makes one more; an empty text
/// counts as one.
pub proof fn tokens_are_begun_quarters(text: Seq<char>)
    ensures
        tokens_of(text) >= 1,
        text.len() > 0 ==> 4 * (tokens_of(text) - 1) < text.len() <= 4 * tokens_of(text),
        text.len() == 0 ==> tokens_of(text) == 1,
{
}

/// A summary is what was visible, up to the limit; one of nothing visible says so, and
/// a limit of zero still leaves a character.
pub proof fn summary_is_the_visible_front(items: Seq<ItemView>, max_chars: usize)
    ensures
        !is_blank(visible_transcript(items)) ==> summary_source(items) == visible_transcript(items),
        is_blank(visible_transcript(items)) ==> summary_source(items)
            == "No visible transcript available for local summary."@,
        max_chars > 0 && summary_source(items).len() <= max_chars ==> summary_text(items, max_chars)
            == summary_source(items),
        summary_source(items).len() > max_chars > 0 ==> summary_text(items, max_chars).len()
            == max_chars,
        summary_text(items, 0) == summary_text(items, 1),
{
}

/// A summary is made where the response to compact is known and its items could be
/// read; its record and its answer tell of that response, of the route and the
/// configured names, and of the tokens of both texts.
pub proof fn summary_tells_what_was_summarised(
    answer_id: Seq<char>,
    lineage_id: Seq<char>,
    request_id: Seq<char>,
    route: RouteSnapshotView,
    source: Option<SourceView>,
    items: Result<Seq<ItemView>, Seq<char>>,
    settings: SummarySettings,
)
    ensures
        ({
            let r = summarised(
                answer_id,
                lineage_id,
                request_id,
                route,
                source,
                items,
                settings,
            );
            &&& r is Ok <==> source is Some && items is Ok
            &&& source is None ==> r->Err_0.kind == ErrorKind::RequestInvalid
            &&& source is Some && items is Err ==> r->Err_0.kind == ErrorKind::InternalError
            &&& r matches Ok(summary) ==> {
                let source = source->0;
                let all = summary_source(items->Ok_0);
                let short = summary_text(items->Ok_0, settings.max_chars);
                let ids = JsonView::Array(seq![JsonView::Text(source.response_id)]);
                let model = match settings.model {
                    Some(model) => model@,
                    None => "modelwire-local-summary"@,
                };
                let version = match settings.prompt_version {
                    Some(version) => version@,
                    None => "v1"@,
                };
                &&& summary.lineage.id == lineage_id && summary.lineage.request_id == request_id
                &&& summary.lineage.route_id == Some(route.route_id)
                &&& summary.lineage.downstream_model == route.downstream_model
                &&& summary.lineage.provider_id == Some(source.provider_id)
                &&& summary.lineage.upstream_model == source.upstream_model
                &&& summary.lineage.state_scope == source.state_scope
                &&& summary.lineage.source_response_ids_json == rendered_json(ids)
                &&& summary.lineage.method == "local_summary"@ && !summary.lineage.provider_native
                &&& summary.lineage.summarizer_model == Some(model)
                &&& summary.lineage.prompt_version == Some(version)
                &&& summary.lineage.source_tokens == Some(tokens_of(all) as i64)
                &&& summary.lineage.summary_tokens == Some(tokens_of(short) as i64)
                &&& summary.answer.holds("id"@, JsonView::Text(answer_id))
                &&& summary.answer.holds("lineage_id"@, JsonView::Text(lineage_id))
                &&& summary.answer.holds("model"@, JsonView::Text(route.downstream_model))
                &&& summary.answer.holds("object"@, JsonView::Text("response.compaction"@))
                &&& summary.answer.holds("method"@, JsonView::Text("local_summary"@))
                &&& summary.answer.holds("provider_native"@, JsonView::Bool(false))
                &&& summary.answer.holds("status"@, JsonView::Text("completed"@))
                &&& summary.answer.holds("source_response_ids"@, ids)
                &&& exists|told: JsonView|
                    {
                        &&& #[trigger] summary.answer.holds("summary"@, told)
                        &&& told.holds("text"@, JsonView::Text(short))
                        &&& told.holds("summarizer_model"@, JsonView::Text(model))
                        &&& told.holds("prompt_version"@, JsonView::Text(version))
                        &&& told.holds("type"@, JsonView::Text("modelwire_local_summary"@))
                    }
                &&& exists|usage: JsonView|
                    {
                        &&& #[trigger] summary.answer.holds("usage"@, usage)
                        &&& usage.holds("input_tokens"@, integer(tokens_of(all) as i64))
                        &&& usage.holds("output_tokens"@, integer(tokens_of(short) as i64))
                        &&& usage.holds(
                            "total_tokens"@,
                            integer(total_of(tokens_of(all), tokens_of(short)) as i64),
                        )
                    }
            }
        }),
{
    let r = summarised(answer_id, lineage_id, request_id, route, source, items, settings);
    if let Ok(summary) = r {
        let answer = summary.answer;
        lemma_holds(answer, 0);
        lemma_holds(answer, 1);
        lemma_holds(answer, 2);
        lemma_holds(answer, 3);
        lemma_holds(answer, 4);
        lemma_holds(answer, 5);
        lemma_holds(answer, 6);
        lemma_holds(answer, 7);
        lemma_holds(answer, 8);
        lemma_holds(answer, 9);
        let told = answer->Object_0[8].1;
        lemma_holds(told, 0);
        lemma_holds(told, 1);
        lemma_holds(told, 2);
        lemma_holds(told, 3);
        assert(answer.holds("summary"@, told));
        let usage = answer->Object_0[9].1;
        lemma_holds(usage, 0);
        lemma_holds(usage, 1);
        lemma_holds(usage, 2);
        assert(answer.holds("usage"@, usage));
    }
}

/// Two counts add up to their sum, or to the most that is counted.
pub proof fn counts_add_up(a: int, b: int)
    requires
        0 <= a <= i64::MAX,
        0 <= b <= i64::MAX,
    ensures
        a + b <= i64::MAX ==> total_of(a, b) == a + b,
        a + b > i64::MAX ==> total_of(a, b) == i64::MAX,
{
}

/// A response that cannot be compacted is told by its id: by the one that was asked for
/// where it is not there, and by its own where it does not say who made it.
pub proof fn lost_source_is_told_by_its_id(
    raw: JsonView,
    id: Seq<char>,
    record: ResponseRecordView,
    detail: Seq<char>,
)
    requires
        source_id(raw) == Some(id),
        record.provider_id is None,
    ensures
        loaded_source(raw, Ok(None)) matches Err(error) && contains_text(error.message, id),
        loaded_source(raw, Ok(Some(record))) matches Err(error) && contains_text(
            error.message,
            record.id,
        ),
        loaded_source(raw, Err(detail)) matches Err(error) && contains_text(error.message, detail),
{
    let start = "Compaction source response '"@;
    part_is_contained(start, id, "' was not found"@);
    part_is_contained(start, record.id, "' is missing provider lineage"@);
    let front = "Failed to load compact source response state: "@;
    part_is_contained(front, detail, Seq::empty());
    assert(front + detail + Seq::empty() =~= front + detail);
}

} // verus!
