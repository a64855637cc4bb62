//! Creating and changing the targets of a route.

use crate::admin::providers::{
    change_flag, change_json, change_opt, change_text, changed, changed_opt, sent,
};
use crate::admin::records::{
    serialize_target_with_id, shown_target, target_of_record, target_reads_back, target_record,
    target_record_to_config, target_row,
};
use crate::admin::rows::{
    answer_carries_the_row, answer_with_row, find_row, found_row, not_found_error, row_answer,
    row_not_found,
};
use crate::admin::validate::{
    known, rejected, target_checked, validate_target_candidate, write_failure, write_failure_kind,
    WriteFailure,
};
use crate::config::{TargetConfig, TargetView};
use crate::error::{error_of, outcome, Error, ErrorKind, ErrorView};
use crate::json::{Json, JsonView};
use crate::store::{stored, RouteRecord, RouteRecordView, TargetRecord, TargetRecordView};
use crate::text::join5;
use vstd::prelude::*;

verus! {

/// A target as it may be sent under other names, with what may be left out.
#[derive(Debug)]
pub struct TargetCreatePayloadAlias {
    pub provider_id: String,
    pub upstream_model: String,
    pub wire_api: Option<String>,
    pub priority: Option<i32>,
    pub enabled: Option<bool>,
    pub context_window_tokens: Option<u64>,
    pub max_output_tokens: Option<u64>,
    pub auto_compact_recommended_tokens: Option<u64>,
    pub context_safety_margin_tokens: Option<u64>,
    pub token_estimator: Option<String>,
    pub context_overflow_policy: Option<String>,
    pub config_json: Option<Json>,
}

/// What a target that is sent reads as.
#[derive(Debug)]
pub enum TargetPayload {
    Target(TargetConfig),
    Alias(TargetCreatePayloadAlias),
    Neither,
}

/// The target that an alias stands for.
pub open spec fn target_of_alias(alias: TargetCreatePayloadAlias) -> TargetView {
    TargetView {
        provider: alias.provider_id@,
        upstream_model: alias.upstream_model@,
        wire_api: changed(alias.wire_api.deep_view(), "auto"@),
        priority: changed(alias.priority, 10),
        enabled: changed(alias.enabled, true),
        context_window_tokens: alias.context_window_tokens,
        max_output_tokens: alias.max_output_tokens,
        auto_compact_recommended_tokens: alias.auto_compact_recommended_tokens,
        context_safety_margin_tokens: alias.context_safety_margin_tokens,
        token_estimator: alias.token_estimator.deep_view(),
        context_overflow_policy: changed(
            alias.context_overflow_policy.deep_view(),
            "reject"@,
        ),
        config_json: alias.config_json.deep_view(),
    }
}

/// The target that is sent.
pub open spec fn sent_target(payload: TargetPayload) -> Result<TargetView, ErrorView> {
    match payload {
        TargetPayload::Target(target) => Ok(target.deep_view()),
        TargetPayload::Alias(alias) => Ok(target_of_alias(alias)),
        TargetPayload::Neither => Err(rejected("Invalid target payload"@)),
    }
}

/// A number that a change gives, or else the one that was there.
fn change_priority(change: Option<i32>, current: i32) -> (r: i32)
    ensures
        r == changed(change, current),
{
    match change {
        Some(value) => value,
        None => current,
    }
}

fn change_limit(change: Option<u64>, current: Option<u64>) -> (r: Option<u64>)
    ensures
        r == changed_opt(change, current),
{
    match change {
        Some(value) => Some(value),
        None => current,
    }
}

/// The target that is sent.
pub fn parse_target_payload(payload: TargetPayload) -> (r: Result<TargetConfig, Error>)
    ensures
        outcome(r) == sent_target(payload),
{
    match payload {
        TargetPayload::Target(target) => Ok(target),
        TargetPayload::Alias(alias) => Ok(
            TargetConfig {
                provider: alias.provider_id,
                upstream_model: alias.upstream_model,
                wire_api: change_text(alias.wire_api, "auto".to_owned()),
                priority: change_priority(alias.priority, 10),
                enabled: change_flag(alias.enabled, true),
                context_window_tokens: alias.context_window_tokens,
                max_output_tokens: alias.max_output_tokens,
                auto_compact_recommended_tokens: alias.auto_compact_recommended_tokens,
                context_safety_margin_tokens: alias.context_safety_margin_tokens,
                token_estimator: alias.token_estimator,
                context_overflow_policy: change_text(
                    alias.context_overflow_policy,
                    "reject".to_owned(),
                ),
                config_json: alias.config_json,
            },
        ),
        TargetPayload::Neither => Err(
            Error::new(ErrorKind::RequestInvalid, "Invalid target payload"),
        ),
    }
}

/// A new target: its row, and what is shown of it.
#[derive(Debug)]
pub struct TargetWrite {
    pub record: TargetRecord,
    pub shown: Json,
}

/// The mathematical value of a [`TargetWrite`].
#[verifier::ext_equal]
pub struct TargetWriteView {
    pub record: TargetRecordView,
    pub shown: JsonView,
}

impl DeepView for TargetWrite {
    type V = TargetWriteView;

    open spec fn deep_view(&self) -> TargetWriteView {
        TargetWriteView { record: self.record.deep_view(), shown: self.shown@ }
    }
}

/// What comes of the creation of a target: its row, or the refusal.
pub open spec fn target_created(
    route: Result<RouteRecordView, ErrorView>,
    target: Result<TargetView, ErrorView>,
    lookup: Result<bool, Seq<char>>,
) -> Result<TargetWriteView, ErrorView> {
    match route {
        Err(error) => Err(error),
        Ok(route) => match target {
            Err(error) => Err(error),
            Ok(target) => match target_checked(
                route.id,
                route.downstream_model,
                target,
                lookup,
            ) {
                Err(error) => Err(error),
                Ok(_) => Ok(
                    TargetWriteView {
                        record: target_row(route.id, target),
                        shown: shown_target(route.id, target),
                    },
                ),
            },
        },
    }
}

/// The row of a new target. `lookup` is whether the store knows its provider.
pub fn create_target(
    route_id: &str,
    route: Result<Option<RouteRecord>, String>,
    payload: TargetPayload,
    lookup: &Result<bool, String>,
) -> (r: Result<TargetWrite, Error>)
    ensures
        outcome(r) == target_created(
            found_row("Route"@, "route"@, route_id@, stored(route)),
            sent_target(payload),
            known(*lookup),
        ),
        r matches Ok(write) ==> (sent_target(payload) matches Ok(target) && target_reads_back(
            target,
            write.record.deep_view(),
        )),
{
    let route = match find_row("Route", "route", route_id, route) {
        Ok(route) => route,
        Err(error) => {
            return Err(error);
        },
    };
    let target = match parse_target_payload(payload) {
        Ok(target) => target,
        Err(error) => {
            return Err(error);
        },
    };
    if let Err(error) = validate_target_candidate(
        route.id.as_str(),
        route.downstream_model.as_str(),
        &target,
        lookup,
    ) {
        return Err(error);
    }
    Ok(
        TargetWrite {
            record: target_record(route.id.as_str(), &target),
            shown: serialize_target_with_id(route.id.as_str(), &target),
        },
    )
}

/// The answer to the creation of a target, given whether its row was written.
pub fn answer_target_creation(write: TargetWrite, written: &Result<(), WriteFailure>) -> (r:
    Result<Json, Error>)
    ensures
        match *written {
            Ok(_) => r matches Ok(answer) && answer@ == row_answer(
                write.record.id@,
                "target"@,
                write.shown@,
                "created"@,
            ),
            Err(failure) => r matches Err(error) && error.deep_view() == error_of(
                write_failure_kind(failure),
                "Failed to persist target '"@ + write.record.id@ + "': "@ + failure.detail@,
            ),
        },
{
    match written {
        Ok(_) => Ok(
            answer_with_row(write.record.id.as_str(), "target", write.shown, "created"),
        ),
        Err(failure) => Err(
            write_failure(
                "Failed to persist target '",
                write.record.id.as_str(),
                "': ",
                failure,
            ),
        ),
    }
}

/// What is to be changed of a target; what is not there stays. Its provider can
/// be given under two names, of which the second counts.
#[derive(Debug)]
pub struct TargetPatch {
    pub provider: Option<String>,
    pub provider_id: Option<String>,
    pub upstream_model: Option<String>,
    pub wire_api: Option<String>,
    pub priority: Option<i32>,
    pub enabled: Option<bool>,
    pub context_window_tokens: Option<u64>,
    pub max_output_tokens: Option<u64>,
    pub auto_compact_recommended_tokens: Option<u64>,
    pub context_safety_margin_tokens: Option<u64>,
    pub token_estimator: Option<String>,
    pub context_overflow_policy: Option<String>,
    pub config_json: Option<Json>,
}

/// The mathematical value of a [`TargetPatch`].
#[verifier::ext_equal]
pub struct TargetPatchView {
    pub provider: Option<Seq<char>>,
    pub provider_id: Option<Seq<char>>,
    pub upstream_model: Option<Seq<char>>,
    pub wire_api: Option<Seq<char>>,
    pub priority: Option<i32>,
    pub enabled: Option<bool>,
    pub context_window_tokens: Option<u64>,
    pub max_output_tokens: Option<u64>,
    pub auto_compact_recommended_tokens: Option<u64>,
    pub context_safety_margin_tokens: Option<u64>,
    pub token_estimator: Option<Seq<char>>,
    pub context_overflow_policy: Option<Seq<char>>,
    pub config_json: Option<JsonView>,
}

impl DeepView for TargetPatch {
    type V = TargetPatchView;

    open spec fn deep_view(&self) -> TargetPatchView {
        TargetPatchView {
            provider: self.provider.deep_view(),
            provider_id: self.provider_id.deep_view(),
            upstream_model: self.upstream_model.deep_view(),
            wire_api: self.wire_api.deep_view(),
            priority: self.priority,
            enabled: self.enabled,
            context_window_tokens: self.context_window_tokens,
            max_output_tokens: self.max_output_tokens,
            auto_compact_recommended_tokens: self.auto_compact_recommended_tokens,
            context_safety_margin_tokens: self.context_safety_margin_tokens,
            token_estimator: self.token_estimator.deep_view(),
            context_overflow_policy: self.context_overflow_policy.deep_view(),
            config_json: self.config_json.deep_view(),
        }
    }
}

/// A target with a change applied.
pub open spec fn patched_target(target: TargetView, patch: TargetPatchView) -> TargetView {
    TargetView {
        provider: changed(patch.provider_id, changed(patch.provider, target.provider)),
        upstream_model: changed(patch.upstream_model, target.upstream_model),
        wire_api: changed(patch.wire_api, target.wire_api),
        priority: changed(patch.priority, target.priority),
        enabled: changed(patch.enabled, target.enabled),
        context_window_tokens: changed_opt(
            patch.context_window_tokens,
            target.context_window_tokens,
        ),
        max_output_tokens: changed_opt(patch.max_output_tokens, target.max_output_tokens),
        auto_compact_recommended_tokens: changed_opt(
            patch.auto_compact_recommended_tokens,
            target.auto_compact_recommended_tokens,
        ),
        context_safety_margin_tokens: changed_opt(
            patch.context_safety_margin_tokens,
            target.context_safety_margin_tokens,
        ),
        token_estimator: changed_opt(patch.token_estimator, target.token_estimator),
        context_overflow_policy: changed(
            patch.context_overflow_policy,
            target.context_overflow_policy,
        ),
        config_json: changed_opt(patch.config_json, target.config_json),
    }
}

/// A target that is to be changed: its route, and what it is to be.
#[derive(Debug)]
pub struct TargetChange {
    pub route: RouteRecord,
    pub candidate: TargetConfig,
}

/// The mathematical value of a [`TargetChange`].
#[verifier::ext_equal]
pub struct TargetChangeView {
    pub route: RouteRecordView,
    pub candidate: TargetView,
}

impl DeepView for TargetChange {
    type V = TargetChangeView;

    open spec fn deep_view(&self) -> TargetChangeView {
        TargetChangeView {
            route: self.route.deep_view(),
            candidate: self.candidate.deep_view(),
        }
    }
}

/// The route of a target, where the store holds it.
pub open spec fn route_of_target(
    target: TargetRecordView,
    route: Result<Option<RouteRecordView>, Seq<char>>,
) -> Result<RouteRecordView, ErrorView> {
    match route {
        Ok(Some(route)) => Ok(route),
        Ok(None) => Err(
            error_of(
                ErrorKind::StateNotFound,
                "Route '"@ + target.route_id + "' not found for target '"@ + target.id + "'"@,
            ),
        ),
        Err(detail) => Err(
            error_of(
                ErrorKind::InternalError,
                "Failed to read route '"@ + target.route_id + "' for target '"@ + target.id
                    + "': "@ + detail,
            ),
        ),
    }
}

/// A target that is to be changed, where it can be.
pub open spec fn target_change(
    id: Seq<char>,
    row: Result<Option<TargetRecordView>, Seq<char>>,
    route: Result<Option<RouteRecordView>, Seq<char>>,
    patch: Result<TargetPatchView, Seq<char>>,
) -> Result<TargetChangeView, ErrorView> {
    match found_row("Target"@, "target"@, id, row) {
        Err(error) => Err(error),
        Ok(existing) => match route_of_target(existing, route) {
            Err(error) => Err(error),
            Ok(route) => match patch {
                Err(detail) => Err(rejected("Invalid target update payload: "@ + detail)),
                Ok(patch) => Ok(
                    TargetChangeView {
                        route,
                        candidate: patched_target(target_of_record(existing), patch),
                    },
                ),
            },
        },
    }
}

fn find_route_of_target(
    target: &TargetRecord,
    route: Result<Option<RouteRecord>, String>,
) -> (r: Result<RouteRecord, Error>)
    ensures
        outcome(r) == route_of_target(target.deep_view(), stored(route)),
{
    match route {
        Ok(Some(route)) => Ok(route),
        Ok(None) => Err(
            Error {
                kind: ErrorKind::StateNotFound,
                message: join5(
                    "Route '",
                    target.route_id.as_str(),
                    "' not found for target '",
                    target.id.as_str(),
                    "'",
                ),
            },
        ),
        Err(detail) => {
            let front = join5(
                "Failed to read route '",
                target.route_id.as_str(),
                "' for target '",
                target.id.as_str(),
                "': ",
            );
            Err(Error::about(ErrorKind::InternalError, front.as_str(), detail.as_str()))
        },
    }
}

/// A target that is to be changed, where it can be. `route` is what the store
/// holds under the id of the target's route.
pub fn patch_target(
    id: &str,
    row: Result<Option<TargetRecord>, String>,
    route: Result<Option<RouteRecord>, String>,
    patch: Result<TargetPatch, String>,
) -> (r: Result<TargetChange, Error>)
    ensures
        outcome(r) == target_change(id@, stored(row), stored(route), sent(patch)),
{
    let existing = match find_row("Target", "target", id, row) {
        Ok(existing) => existing,
        Err(error) => {
            return Err(error);
        },
    };
    let route = match find_route_of_target(&existing, route) {
        Ok(route) => route,
        Err(error) => {
            return Err(error);
        },
    };
    let patch = match patch {
        Ok(patch) => patch,
        Err(detail) => {
            return Err(
                Error::about(
                    ErrorKind::RequestInvalid,
                    "Invalid target update payload: ",
                    detail.as_str(),
                ),
            );
        },
    };
    let current = target_record_to_config(&existing);
    let candidate = TargetConfig {
        provider: change_text(
            patch.provider_id,
            change_text(patch.provider, current.provider),
        ),
        upstream_model: change_text(patch.upstream_model, current.upstream_model),
        wire_api: change_text(patch.wire_api, current.wire_api),
        priority: change_priority(patch.priority, current.priority),
        enabled: change_flag(patch.enabled, current.enabled),
        context_window_tokens: change_limit(
            patch.context_window_tokens,
            current.context_window_tokens,
        ),
        max_output_tokens: change_limit(patch.max_output_tokens, current.max_output_tokens),
        auto_compact_recommended_tokens: change_limit(
            patch.auto_compact_recommended_tokens,
            current.auto_compact_recommended_tokens,
        ),
        context_safety_margin_tokens: change_limit(
            patch.context_safety_margin_tokens,
            current.context_safety_margin_tokens,
        ),
        token_estimator: change_opt(patch.token_estimator, current.token_estimator),
        context_overflow_policy: change_text(
            patch.context_overflow_policy,
            current.context_overflow_policy,
        ),
        config_json: change_json(patch.config_json, current.config_json),
    };
    Ok(TargetChange { route, candidate })
}

/// What comes of a change of a target: its new row, which keeps its id, or the
/// refusal.
pub open spec fn target_updated(
    id: Seq<char>,
    change: TargetChangeView,
    lookup: Result<bool, Seq<char>>,
) -> Result<TargetWriteView, ErrorView> {
    match target_checked(
        change.route.id,
        change.route.downstream_model,
        change.candidate,
        lookup,
    ) {
        Err(error) => Err(error),
        Ok(_) => Ok(
            TargetWriteView {
                record: TargetRecordView { id, ..target_row(change.route.id, change.candidate) },
                shown: shown_target(change.route.id, change.candidate),
            },
        ),
    }
}

/// The new row of a changed target. `lookup` is whether the store knows its
/// provider.
pub fn update_target(id: &str, change: &TargetChange, lookup: &Result<bool, String>) -> (r: Result<
    TargetWrite,
    Error,
>)
    ensures
        outcome(r) == target_updated(id@, change.deep_view(), known(*lookup)),
        r matches Ok(write) ==> target_reads_back(
            change.candidate.deep_view(),
            write.record.deep_view(),
        ),
{
    let route = &change.route;
    if let Err(error) = validate_target_candidate(
        route.id.as_str(),
        route.downstream_model.as_str(),
        &change.candidate,
        lookup,
    ) {
        return Err(error);
    }
    let mut record = target_record(route.id.as_str(), &change.candidate);
    record.id = id.to_owned();
    Ok(
        TargetWrite {
            record,
            shown: serialize_target_with_id(route.id.as_str(), &change.candidate),
        },
    )
}

/// The answer to a change of a target, given how many rows it took.
pub open spec fn target_update_answer(
    id: Seq<char>,
    shown: JsonView,
    rows: Result<u64, WriteFailure>,
) -> Result<JsonView, ErrorView> {
    match rows {
        Ok(count) => if count == 0 {
            Err(not_found_error("Target"@, id))
        } else {
            Ok(row_answer(id, "target"@, shown, "updated"@))
        },
        Err(failure) => Err(
            error_of(
                write_failure_kind(failure),
                "Failed to update target '"@ + id + "': "@ + failure.detail@,
            ),
        ),
    }
}

/// The answer to a change of a target.
pub fn answer_target_update(id: &str, shown: Json, rows: &Result<u64, WriteFailure>) -> (r: Result<
    Json,
    Error,
>)
    ensures
        match r {
            Ok(answer) => target_update_answer(id@, shown@, *rows) == Ok::<JsonView, ErrorView>(
                answer@,
            ),
            Err(error) => target_update_answer(id@, shown@, *rows) == Err::<JsonView, ErrorView>(
                error.deep_view(),
            ),
        },
{
    match rows {
        Ok(count) => {
            if *count == 0 {
                return Err(row_not_found("Target", id));
            }
            Ok(answer_with_row(id, "target", shown, "updated"))
        },
        Err(failure) => Err(write_failure("Failed to update target '", id, "': ", failure)),
    }
}

/// A change that says nothing leaves a target as it is.
pub proof fn empty_patch_changes_nothing(target: TargetView)
    ensures
        patched_target(
            target,
            TargetPatchView {
                provider: None,
                provider_id: None,
                upstream_model: None,
                wire_api: None,
                priority: None,
                enabled: None,
                context_window_tokens: None,
                max_output_tokens: None,
                auto_compact_recommended_tokens: None,
                context_safety_margin_tokens: None,
                token_estimator: None,
                context_overflow_policy: None,
                config_json: None,
            },
        ) == target,
{
}

/// Of a change that is applied twice, the second time changes nothing.
pub proof fn patching_twice_is_patching_once(target: TargetView, patch: TargetPatchView)
    ensures
        patched_target(patched_target(target, patch), patch) == patched_target(target, patch),
{
}

/// A target that is sent under the other names is the same target: its provider by its
/// id, each limit in its own field, and what is not given as it is by default.
pub proof fn alias_is_the_same_target(alias: TargetCreatePayloadAlias)
    ensures
        ({
            let target = target_of_alias(alias);
            &&& target.provider == alias.provider_id@
            &&& target.upstream_model == alias.upstream_model@
            &&& alias.wire_api matches Some(name) ==> target.wire_api == name@
            &&& alias.wire_api is None ==> target.wire_api == "auto"@
            &&& alias.priority matches Some(priority) ==> target.priority == priority
            &&& alias.priority is None ==> target.priority == 10
            &&& alias.enabled matches Some(enabled) ==> target.enabled == enabled
            &&& alias.enabled is None ==> target.enabled
            &&& target.context_window_tokens == alias.context_window_tokens
            &&& target.max_output_tokens == alias.max_output_tokens
            &&& target.auto_compact_recommended_tokens == alias.auto_compact_recommended_tokens
            &&& target.context_safety_margin_tokens == alias.context_safety_margin_tokens
            &&& target.token_estimator == alias.token_estimator.deep_view()
            &&& alias.context_overflow_policy matches Some(policy)
                ==> target.context_overflow_policy == policy@
            &&& alias.context_overflow_policy is None ==> target.context_overflow_policy
                == "reject"@
            &&& target.config_json == alias.config_json.deep_view()
        }),
        sent_target(TargetPayload::Alias(alias)) == Ok::<TargetView, ErrorView>(
            target_of_alias(alias),
        ),
        sent_target(TargetPayload::Neither) is Err,
{
}

/// A change gives a target the values that it names, each in its own field, and leaves
/// the other fields as they are. The provider can be named in two ways, of which its id
/// counts before the other.
pub proof fn target_change_is_field_by_field(target: TargetView, patch: TargetPatchView)
    ensures
        ({
            let new = patched_target(target, patch);
            &&& patch.provider_id matches Some(provider) ==> new.provider == provider
            &&& patch.provider_id is None && patch.provider is Some ==> new.provider
                == patch.provider->0
            &&& patch.provider_id is None && patch.provider is None ==> new.provider
                == target.provider
            &&& patch.upstream_model matches Some(value) ==> new.upstream_model == value
            &&& patch.upstream_model is None ==> new.upstream_model == target.upstream_model
            &&& patch.wire_api matches Some(value) ==> new.wire_api == value
            &&& patch.wire_api is None ==> new.wire_api == target.wire_api
            &&& patch.priority matches Some(value) ==> new.priority == value
            &&& patch.priority is None ==> new.priority == target.priority
            &&& patch.enabled matches Some(value) ==> new.enabled == value
            &&& patch.enabled is None ==> new.enabled == target.enabled
            &&& patch.context_overflow_policy matches Some(value) ==> new.context_overflow_policy == value
            &&& patch.context_overflow_policy is None ==> new.context_overflow_policy == target.context_overflow_policy
            &&& patch.context_window_tokens is Some ==> new.context_window_tokens == patch.context_window_tokens
            &&& patch.context_window_tokens is None ==> new.context_window_tokens == target.context_window_tokens
            &&& patch.max_output_tokens is Some ==> new.max_output_tokens == patch.max_output_tokens
            &&& patch.max_output_tokens is None ==> new.max_output_tokens == target.max_output_tokens
            &&& patch.auto_compact_recommended_tokens is Some ==> new.auto_compact_recommended_tokens == patch.auto_compact_recommended_tokens
            &&& patch.auto_compact_recommended_tokens is None ==> new.auto_compact_recommended_tokens == target.auto_compact_recommended_tokens
            &&& patch.context_safety_margin_tokens is Some ==> new.context_safety_margin_tokens == patch.context_safety_margin_tokens
            &&& patch.context_safety_margin_tokens is None ==> new.context_safety_margin_tokens == target.context_safety_margin_tokens
            &&& patch.token_estimator is Some ==> new.token_estimator == patch.token_estimator
            &&& patch.token_estimator is None ==> new.token_estimator == target.token_estimator
            &&& patch.config_json is Some ==> new.config_json == patch.config_json
            &&& patch.config_json is None ==> new.config_json == target.config_json
        }),
{
}

/// A target is created just where its route is there, what was sent can be read, and it
/// is accepted; it is stored and shown under its route.
pub proof fn new_target_is_stored_under_its_route(
    route: Result<RouteRecordView, ErrorView>,
    target: Result<TargetView, ErrorView>,
    lookup: Result<bool, Seq<char>>,
)
    ensures
        target_created(route, target, lookup) is Ok <==> {
            &&& route is Ok && target is Ok
            &&& target_checked(
                route->Ok_0.id,
                route->Ok_0.downstream_model,
                target->Ok_0,
                lookup,
            ) is Ok
        },
        target_created(route, target, lookup) matches Ok(write) ==> {
            &&& write.record == target_row(route->Ok_0.id, target->Ok_0)
            &&& write.shown == shown_target(route->Ok_0.id, target->Ok_0)
        },
        route is Err ==> target_created(route, target, lookup)->Err_0 == route->Err_0,
        route is Ok && target is Err ==> target_created(route, target, lookup)->Err_0
            == target->Err_0,
{
}

/// A target can be changed just where the store holds it and its route, and the change
/// can be read; the change is then of the stored target.
pub proof fn stored_target_is_changed(
    id: Seq<char>,
    row: Result<Option<TargetRecordView>, Seq<char>>,
    route: Result<Option<RouteRecordView>, Seq<char>>,
    patch: Result<TargetPatchView, Seq<char>>,
)
    ensures
        target_change(id, row, route, patch) is Ok <==> row is Ok && row->Ok_0 is Some && route
            is Ok && route->Ok_0 is Some && patch is Ok,
        target_change(id, row, route, patch) matches Ok(change) ==> {
            &&& route == Ok::<Option<RouteRecordView>, Seq<char>>(Some(change.route))
            &&& change.candidate == patched_target(target_of_record(row->Ok_0->0), patch->Ok_0)
        },
        target_change(id, row, route, patch) matches Err(error) ==> error.kind == if row is Err || (
        row->Ok_0 is Some && route is Err) {
            ErrorKind::InternalError
        } else if row->Ok_0 is None || route->Ok_0 is None {
            ErrorKind::StateNotFound
        } else {
            ErrorKind::RequestInvalid
        },
{
}

/// A changed target keeps its id, whatever its provider and its priority are now; the
/// rest of its row is that of the changed target.
pub proof fn changed_target_keeps_its_id(
    id: Seq<char>,
    change: TargetChangeView,
    lookup: Result<bool, Seq<char>>,
)
    ensures
        target_updated(id, change, lookup) is Ok <==> target_checked(
            change.route.id,
            change.route.downstream_model,
            change.candidate,
            lookup,
        ) is Ok,
        target_updated(id, change, lookup) matches Ok(write) ==> {
            &&& write.record.id == id && write.record.route_id == change.route.id
            &&& write.record == (TargetRecordView {
                id,
                ..target_row(change.route.id, change.candidate)
            })
            &&& write.shown == shown_target(change.route.id, change.candidate)
        },
{
}

/// A change that took a row is answered with the target as it is now; one that took
/// none tells that there is no such target, and one that failed is reported by its
/// cause.
pub proof fn written_target_is_answered(
    id: Seq<char>,
    shown: JsonView,
    rows: Result<u64, WriteFailure>,
)
    ensures
        target_update_answer(id, shown, rows) is Ok <==> (rows matches Ok(count) && count > 0),
        target_update_answer(id, shown, rows) matches Ok(answer) ==> {
            &&& answer.holds("id"@, JsonView::Text(id)) && answer.holds("target"@, shown)
            &&& answer.holds("status"@, JsonView::Text("updated"@))
        },
        rows matches Ok(count) ==> count == 0 ==> target_update_answer(id, shown, rows)->Err_0.kind
            == ErrorKind::StateNotFound,
        rows matches Err(failure) ==> target_update_answer(id, shown, rows)->Err_0.kind
            == write_failure_kind(failure),
{
    answer_carries_the_row(id, "target"@, shown, "updated"@);
}

} // verus!
