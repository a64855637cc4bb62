//! Creating and changing routes.

use crate::admin::providers::{change_flag, change_opt, change_text, changed, changed_opt, sent};
use crate::admin::records::{
    flag_number, listed_route, route_of_record, route_record_to_config, serialize_listed_route,
    serialize_route_record, shown_route, stored_flag, target_reads_back, target_record, target_row,
};
use crate::admin::rows::{
    failure_error, find_row, found_row, not_found_error, row_failure, row_not_found,
};
use crate::admin::validate::{
    all_known, rejected, route_checked, validate_route_candidate, write_failure, write_failure_kind,
    WriteFailure,
};
use crate::config::{
    effective_route_id, route_effective_id, RouteConfig, RouteView, TargetConfig, TargetView,
};
use crate::error::{error_of, outcome, Error, ErrorKind, ErrorView};
use crate::json::{add_item, Json, JsonView};
use crate::store::{stored, RouteRecord, RouteRecordView, TargetRecord, TargetRecordView};
use crate::text::{copy_opt, join4, join5, same};
use vstd::prelude::*;

verus! {

/// A route as it is stored.
pub open spec fn route_row(id: Seq<char>, route: RouteView) -> RouteRecordView {
    RouteRecordView {
        id,
        downstream_model: route.downstream_model,
        description: route.description,
        enabled: flag_number(route.enabled),
    }
}

fn route_record(id: &str, route: &RouteConfig) -> (r: RouteRecord)
    ensures
        r.deep_view() == route_row(id@, route.deep_view()),
{
    RouteRecord {
        id: id.to_owned(),
        downstream_model: route.downstream_model.clone(),
        description: copy_opt(&route.description),
        enabled: stored_flag(route.enabled),
    }
}

/// The targets of a route as they are stored.
pub open spec fn target_rows(id: Seq<char>, targets: Seq<TargetView>) -> Seq<TargetRecordView> {
    targets.map_values(|target: TargetView| target_row(id, target))
}

/// Whether rows read back as the targets they were made of.
pub open spec fn targets_read_back(targets: Seq<TargetView>, rows: Seq<TargetRecordView>) -> bool {
    forall|i: int|
        0 <= i < targets.len() && i < rows.len() ==> target_reads_back(
            targets[i],
            #[trigger] rows[i],
        )
}

fn target_records(id: &str, targets: &Vec<TargetConfig>) -> (r: Vec<TargetRecord>)
    ensures
        r.deep_view() == target_rows(id@, targets.deep_view()),
        targets_read_back(targets.deep_view(), r.deep_view()),
{
    let ghost wanted = target_rows(id@, targets.deep_view());
    let mut records: Vec<TargetRecord> = Vec::new();
    let mut i: usize = 0;
    assert(records.deep_view() =~= wanted.take(0));
    while i < targets.len()
        invariant
            i <= targets.len(),
            wanted == target_rows(id@, targets.deep_view()),
            records.deep_view() == wanted.take(i as int),
            targets_read_back(targets.deep_view(), records.deep_view()),
        decreases targets.len() - i,
    {
        let ghost before = records.deep_view();
        let record = target_record(id, &targets[i]);
        let ghost shown = record.deep_view();
        records.push(record);
        assert(records.deep_view() =~= before.push(shown));
        assert(wanted.take(i + 1) =~= before.push(shown));
        i = i + 1;
    }
    assert(wanted.take(wanted.len() as int) =~= wanted);
    records
}

/// What is to be written for a new route: its own row, and then those of its
/// targets.
#[derive(Debug)]
pub struct RoutePlan {
    pub route: RouteRecord,
    pub targets: Vec<TargetRecord>,
}

/// The mathematical value of a [`RoutePlan`].
#[verifier::ext_equal]
pub struct RoutePlanView {
    pub route: RouteRecordView,
    pub targets: Seq<TargetRecordView>,
}

impl DeepView for RoutePlan {
    type V = RoutePlanView;

    open spec fn deep_view(&self) -> RoutePlanView {
        RoutePlanView { route: self.route.deep_view(), targets: self.targets.deep_view() }
    }
}

/// What comes of the creation of a route: what is to be written, or the refusal.
pub open spec fn route_created(
    payload: Result<RouteView, Seq<char>>,
    existing: Result<Seq<RouteRecordView>, Seq<char>>,
    lookups: Seq<Result<bool, Seq<char>>>,
) -> Result<RoutePlanView, ErrorView> {
    match payload {
        Err(detail) => Err(rejected("Invalid route payload: "@ + detail)),
        Ok(route) => match route_checked(route, None, existing, lookups) {
            Err(error) => Err(error),
            Ok(_) => {
                let id = effective_route_id(route);
                Ok(
                    RoutePlanView {
                        route: route_row(id, route),
                        targets: target_rows(id, route.targets),
                    },
                )
            },
        },
    }
}

/// What is to be written for a new route. `lookups` tells of each of its targets
/// whether the store knows its provider.
pub fn create_route(
    payload: &Result<RouteConfig, String>,
    existing: &Result<Vec<RouteRecord>, String>,
    lookups: &Vec<Result<bool, String>>,
) -> (r: Result<RoutePlan, Error>)
    requires
        payload matches Ok(route) ==> lookups.len() >= route.targets.len(),
    ensures
        outcome(r) == route_created(sent(*payload), stored(*existing), all_known(lookups@)),
        r matches Ok(plan) ==> (payload matches Ok(route) && targets_read_back(
            route.targets.deep_view(),
            plan.targets.deep_view(),
        )),
{
    let route = match payload {
        Ok(route) => route,
        Err(detail) => {
            return Err(
                Error::about(
                    ErrorKind::RequestInvalid,
                    "Invalid route payload: ",
                    detail.as_str(),
                ),
            );
        },
    };
    if let Err(error) = validate_route_candidate(route, None, existing, lookups) {
        return Err(error);
    }
    let id = route_effective_id(route);
    Ok(
        RoutePlan {
            route: route_record(id.as_str(), route),
            targets: target_records(id.as_str(), &route.targets),
        },
    )
}

/// What a route that could not be written is reported as.
pub fn route_not_persisted(route_id: &str, failure: &WriteFailure) -> (r: Error)
    ensures
        r.deep_view() == error_of(
            write_failure_kind(*failure),
            "Failed to persist route '"@ + route_id@ + "': "@ + failure.detail@,
        ),
{
    write_failure("Failed to persist route '", route_id, "': ", failure)
}

/// What a target that could not be written with its route is reported as.
pub fn target_not_persisted(route_id: &str, target_id: &str, detail: &str) -> (r: Error)
    ensures
        r.deep_view() == error_of(
            ErrorKind::InternalError,
            "Failed to persist target '"@ + target_id@ + "' for route '"@ + route_id@ + "': "@
                + detail@,
        ),
{
    let front = join5(
        "Failed to persist target '",
        target_id,
        "' for route '",
        route_id,
        "': ",
    );
    Error::about(ErrorKind::InternalError, front.as_str(), detail)
}

/// How many targets a route has; none where they could not be read.
pub open spec fn counted_targets(targets: Result<Seq<TargetRecordView>, Seq<char>>) -> nat {
    match targets {
        Ok(targets) => targets.len(),
        Err(_) => 0,
    }
}

/// The stored routes as they are listed, each with what was read of its targets.
pub open spec fn listed_routes(
    rows: Seq<(RouteRecordView, Result<Seq<TargetRecordView>, Seq<char>>)>,
) -> Seq<JsonView> {
    rows.map_values(
        |row: (RouteRecordView, Result<Seq<TargetRecordView>, Seq<char>>)|
            listed_route(row.0, counted_targets(row.1) as u64),
    )
}

/// Rows with what was read of their targets, as they are in contracts.
pub open spec fn read_rows(rows: Seq<(RouteRecord, Result<Vec<TargetRecord>, String>)>) -> Seq<
    (RouteRecordView, Result<Seq<TargetRecordView>, Seq<char>>),
> {
    rows.map_values(
        |row: (RouteRecord, Result<Vec<TargetRecord>, String>)|
            (row.0.deep_view(), stored(row.1)),
    )
}

/// The stored routes as they are listed. Each comes with what was read of its
/// targets.
pub fn list_routes(rows: &Vec<(RouteRecord, Result<Vec<TargetRecord>, String>)>) -> (r: Vec<Json>)
    ensures
        r.deep_view() == listed_routes(read_rows(rows@)),
{
    let ghost wanted = listed_routes(read_rows(rows@));
    let mut listed: Vec<Json> = Vec::new();
    let mut i: usize = 0;
    assert(listed.deep_view() =~= wanted.take(0));
    while i < rows.len()
        invariant
            i <= rows.len(),
            wanted == listed_routes(read_rows(rows@)),
            listed.deep_view() == wanted.take(i as int),
        decreases rows.len() - i,
    {
        let count: usize = match &rows[i].1 {
            Ok(targets) => targets.len(),
            Err(_) => 0,
        };
        assert(rows@[i as int].1 matches Ok(targets) ==> targets.deep_view().len()
            == targets@.len());
        add_item(&mut listed, serialize_listed_route(&rows[i].0, count));
        assert(listed.deep_view() =~= wanted.take(i + 1));
        i = i + 1;
    }
    assert(wanted.take(wanted.len() as int) =~= wanted);
    listed
}

/// The targets of a route, where they could be read.
pub open spec fn found_targets(
    id: Seq<char>,
    targets: Result<Seq<TargetRecordView>, Seq<char>>,
) -> Result<Seq<TargetRecordView>, ErrorView> {
    match targets {
        Ok(targets) => Ok(targets),
        Err(detail) => Err(
            failure_error("Failed to read "@, "route targets for"@, id, detail),
        ),
    }
}

fn find_targets(id: &str, targets: Result<Vec<TargetRecord>, String>) -> (r: Result<
    Vec<TargetRecord>,
    Error,
>)
    ensures
        outcome(r) == found_targets(id@, stored(targets)),
{
    match targets {
        Ok(targets) => Ok(targets),
        Err(detail) => Err(
            row_failure("Failed to read ", "route targets for", id, detail.as_str()),
        ),
    }
}

/// A stored route as an administrator is shown it.
pub open spec fn route_shown(
    id: Seq<char>,
    row: Result<Option<RouteRecordView>, Seq<char>>,
    targets: Result<Seq<TargetRecordView>, Seq<char>>,
) -> Result<JsonView, ErrorView> {
    match found_row("Route"@, "route"@, id, row) {
        Err(error) => Err(error),
        Ok(route) => match found_targets(id, targets) {
            Err(error) => Err(error),
            Ok(targets) => Ok(shown_route(route, targets)),
        },
    }
}

/// A stored route as an administrator is shown it.
pub fn get_route(
    id: &str,
    row: Result<Option<RouteRecord>, String>,
    targets: Result<Vec<TargetRecord>, String>,
) -> (r: Result<Json, Error>)
    ensures
        match r {
            Ok(shown) => route_shown(id@, stored(row), stored(targets)) == Ok::<
                JsonView,
                ErrorView,
            >(shown@),
            Err(error) => route_shown(id@, stored(row), stored(targets)) == Err::<
                JsonView,
                ErrorView,
            >(error.deep_view()),
        },
{
    let route = match find_row("Route", "route", id, row) {
        Ok(route) => route,
        Err(error) => {
            return Err(error);
        },
    };
    match find_targets(id, targets) {
        Ok(targets) => Ok(serialize_route_record(&route, &targets)),
        Err(error) => Err(error),
    }
}

/// What is to be changed of a route; what is not there stays. Targets that are
/// given take the place of all that were there.
#[derive(Debug)]
pub struct RoutePatch {
    pub id: Option<String>,
    pub downstream_model: Option<String>,
    pub description: Option<String>,
    pub enabled: Option<bool>,
    pub targets: Option<Vec<TargetConfig>>,
}

/// The mathematical value of a [`RoutePatch`].
#[verifier::ext_equal]
pub struct RoutePatchView {
    pub id: Option<Seq<char>>,
    pub downstream_model: Option<Seq<char>>,
    pub description: Option<Seq<char>>,
    pub enabled: Option<bool>,
    pub targets: Option<Seq<TargetView>>,
}

impl DeepView for RoutePatch {
    type V = RoutePatchView;

    open spec fn deep_view(&self) -> RoutePatchView {
        RoutePatchView {
            id: self.id.deep_view(),
            downstream_model: self.downstream_model.deep_view(),
            description: self.description.deep_view(),
            enabled: self.enabled,
            targets: self.targets.deep_view(),
        }
    }
}

/// A route with a change applied.
pub open spec fn patched_route(route: RouteView, patch: RoutePatchView) -> RouteView {
    RouteView {
        id: changed_opt(patch.id, route.id),
        downstream_model: changed(patch.downstream_model, route.downstream_model),
        description: changed_opt(patch.description, route.description),
        enabled: changed(patch.enabled, route.enabled),
        targets: changed(patch.targets, route.targets),
    }
}

/// A route that is to be changed: what it is, what it is to be, and whether its
/// targets are replaced.
#[derive(Debug)]
pub struct RouteChange {
    pub existing: RouteRecord,
    pub existing_targets: Vec<TargetRecord>,
    pub candidate: RouteConfig,
    pub replace_targets: bool,
}

/// The mathematical value of a [`RouteChange`].
#[verifier::ext_equal]
pub struct RouteChangeView {
    pub existing: RouteRecordView,
    pub existing_targets: Seq<TargetRecordView>,
    pub candidate: RouteView,
    pub replace_targets: bool,
}

impl DeepView for RouteChange {
    type V = RouteChangeView;

    open spec fn deep_view(&self) -> RouteChangeView {
        RouteChangeView {
            existing: self.existing.deep_view(),
            existing_targets: self.existing_targets.deep_view(),
            candidate: self.candidate.deep_view(),
            replace_targets: self.replace_targets,
        }
    }
}

/// A route that is to be changed, where it can be.
pub open spec fn route_change(
    id: Seq<char>,
    row: Result<Option<RouteRecordView>, Seq<char>>,
    targets: Result<Seq<TargetRecordView>, Seq<char>>,
    patch: Result<RoutePatchView, Seq<char>>,
) -> Result<RouteChangeView, ErrorView> {
    match found_row("Route"@, "route"@, id, row) {
        Err(error) => Err(error),
        Ok(existing) => match found_targets(id, targets) {
            Err(error) => Err(error),
            Ok(existing_targets) => match patch {
                Err(detail) => Err(rejected("Invalid route update payload: "@ + detail)),
                Ok(patch) => if patch.id is Some && patch.id != Some(id) {
                    Err(rejected("Route id in payload must match path id"@))
                } else {
                    Ok(
                        RouteChangeView {
                            existing,
                            existing_targets,
                            candidate: patched_route(
                                route_of_record(existing, existing_targets),
                                patch,
                            ),
                            replace_targets: patch.targets is Some,
                        },
                    )
                },
            },
        },
    }
}

/// A route that is to be changed, where it can be.
pub fn patch_route(
    id: &str,
    row: Result<Option<RouteRecord>, String>,
    targets: Result<Vec<TargetRecord>, String>,
    patch: Result<RoutePatch, String>,
) -> (r: Result<RouteChange, Error>)
    ensures
        outcome(r) == route_change(id@, stored(row), stored(targets), sent(patch)),
{
    let existing = match find_row("Route", "route", id, row) {
        Ok(existing) => existing,
        Err(error) => {
            return Err(error);
        },
    };
    let existing_targets = match find_targets(id, targets) {
        Ok(targets) => targets,
        Err(error) => {
            return Err(error);
        },
    };
    let patch = match patch {
        Ok(patch) => patch,
        Err(detail) => {
            return Err(
                Error::about(
                    ErrorKind::RequestInvalid,
                    "Invalid route update payload: ",
                    detail.as_str(),
                ),
            );
        },
    };
    if let Some(new_id) = &patch.id {
        if !same(new_id.as_str(), id) {
            return Err(
                Error::new(ErrorKind::RequestInvalid, "Route id in payload must match path id"),
            );
        }
    }
    let current = route_record_to_config(&existing, &existing_targets);
    let replace_targets = patch.targets.is_some();
    let candidate = RouteConfig {
        id: change_opt(patch.id, current.id),
        downstream_model: change_text(patch.downstream_model, current.downstream_model),
        description: change_opt(patch.description, current.description),
        enabled: change_flag(patch.enabled, current.enabled),
        targets: match patch.targets {
            Some(targets) => targets,
            None => current.targets,
        },
    };
    Ok(RouteChange { existing, existing_targets, candidate, replace_targets })
}

/// What is to be written for a changed route: its own row, and then, where its
/// targets are replaced, the removal of the old ones and the rows of the new.
#[derive(Debug)]
pub struct RouteUpdatePlan {
    pub route: RouteRecord,
    pub removed: Vec<String>,
    pub added: Vec<TargetRecord>,
}

/// The mathematical value of a [`RouteUpdatePlan`].
#[verifier::ext_equal]
pub struct RouteUpdateView {
    pub route: RouteRecordView,
    pub removed: Seq<Seq<char>>,
    pub added: Seq<TargetRecordView>,
}

impl DeepView for RouteUpdatePlan {
    type V = RouteUpdateView;

    open spec fn deep_view(&self) -> RouteUpdateView {
        RouteUpdateView {
            route: self.route.deep_view(),
            removed: self.removed.deep_view(),
            added: self.added.deep_view(),
        }
    }
}

/// The ids of stored targets.
pub open spec fn target_ids(targets: Seq<TargetRecordView>) -> Seq<Seq<char>> {
    targets.map_values(|target: TargetRecordView| target.id)
}

fn ids_of_targets(targets: &Vec<TargetRecord>) -> (r: Vec<String>)
    ensures
        r.deep_view() == target_ids(targets.deep_view()),
{
    let ghost wanted = target_ids(targets.deep_view());
    let mut ids: Vec<String> = Vec::new();
    let mut i: usize = 0;
    assert(ids.deep_view() =~= wanted.take(0));
    while i < targets.len()
        invariant
            i <= targets.len(),
            wanted == target_ids(targets.deep_view()),
            ids.deep_view() == wanted.take(i as int),
        decreases targets.len() - i,
    {
        let ghost before = ids.deep_view();
        let id = targets[i].id.clone();
        let ghost shown = id@;
        ids.push(id);
        assert(ids.deep_view() =~= before.push(shown));
        assert(wanted.take(i + 1) =~= before.push(shown));
        i = i + 1;
    }
    assert(wanted.take(wanted.len() as int) =~= wanted);
    ids
}

/// What comes of a change of a route: what is to be written, or the refusal.
pub open spec fn route_updated(
    id: Seq<char>,
    change: RouteChangeView,
    existing: Result<Seq<RouteRecordView>, Seq<char>>,
    lookups: Seq<Result<bool, Seq<char>>>,
) -> Result<RouteUpdateView, ErrorView> {
    match route_checked(change.candidate, Some(id), existing, lookups) {
        Err(error) => Err(error),
        Ok(_) => Ok(
            RouteUpdateView {
                route: route_row(id, change.candidate),
                removed: if change.replace_targets {
                    target_ids(change.existing_targets)
                } else {
                    Seq::empty()
                },
                added: if change.replace_targets {
                    target_rows(id, change.candidate.targets)
                } else {
                    Seq::empty()
                },
            },
        ),
    }
}

/// What is to be written for a changed route. `lookups` tells of each of its
/// targets whether the store knows its provider.
pub fn update_route(
    id: &str,
    change: &RouteChange,
    existing: &Result<Vec<RouteRecord>, String>,
    lookups: &Vec<Result<bool, String>>,
) -> (r: Result<RouteUpdatePlan, Error>)
    requires
        lookups.len() >= change.candidate.targets.len(),
    ensures
        outcome(r) == route_updated(
            id@,
            change.deep_view(),
            stored(*existing),
            all_known(lookups@),
        ),
        r matches Ok(plan) ==> targets_read_back(
            change.candidate.targets.deep_view(),
            plan.added.deep_view(),
        ),
{
    if let Err(error) = validate_route_candidate(&change.candidate, Some(id), existing, lookups) {
        return Err(error);
    }
    let route = route_record(id, &change.candidate);
    if change.replace_targets {
        return Ok(
            RouteUpdatePlan {
                route,
                removed: ids_of_targets(&change.existing_targets),
                added: target_records(id, &change.candidate.targets),
            },
        );
    }
    let removed: Vec<String> = Vec::new();
    let added: Vec<TargetRecord> = Vec::new();
    assert(removed.deep_view() =~= Seq::empty());
    assert(added.deep_view() =~= Seq::empty());
    Ok(RouteUpdatePlan { route, removed, added })
}

/// Whether a changed route was written, given how many rows it took.
pub open spec fn route_update_result(
    id: Seq<char>,
    rows: Result<u64, WriteFailure>,
) -> Result<(), ErrorView> {
    match rows {
        Ok(count) => if count == 0 {
            Err(not_found_error("Route"@, id))
        } else {
            Ok(())
        },
        Err(failure) => Err(
            error_of(
                write_failure_kind(failure),
                "Failed to update route '"@ + id + "': "@ + failure.detail@,
            ),
        ),
    }
}

/// Whether a changed route was written.
pub fn check_route_update(id: &str, rows: &Result<u64, WriteFailure>) -> (r: Result<(), Error>)
    ensures
        outcome(r) == route_update_result(id@, *rows),
{
    match rows {
        Ok(count) => {
            if *count == 0 {
                return Err(row_not_found("Route", id));
            }
            Ok(())
        },
        Err(failure) => Err(write_failure("Failed to update route '", id, "': ", failure)),
    }
}

/// What a target that could not be removed for a change of its route is reported
/// as.
pub fn targets_not_replaced(downstream_model: &str, detail: &str) -> (r: Error)
    ensures
        r.deep_view() == error_of(
            ErrorKind::InternalError,
            "Failed to replace targets for route '"@ + downstream_model@ + "': "@ + detail@,
        ),
{
    Error {
        kind: ErrorKind::InternalError,
        message: join4(
            "Failed to replace targets for route '",
            downstream_model,
            "': ",
            detail,
        ),
    }
}

/// What targets that could not be read back for the record of a change are
/// reported as.
pub fn updated_targets_unread(detail: &str) -> (r: Error)
    ensures
        r.deep_view() == error_of(
            ErrorKind::InternalError,
            "Failed to read updated route targets for audit: "@ + detail@,
        ),
{
    Error::about(
        ErrorKind::InternalError,
        "Failed to read updated route targets for audit: ",
        detail,
    )
}

/// The targets that go before their route does.
pub open spec fn targets_of_deleted(
    id: Seq<char>,
    targets: Result<Seq<TargetRecordView>, Seq<char>>,
) -> Result<Seq<Seq<char>>, ErrorView> {
    match targets {
        Ok(targets) => Ok(target_ids(targets)),
        Err(detail) => Err(
            error_of(
                ErrorKind::InternalError,
                "Failed to inspect route targets for '"@ + id + "': "@ + detail,
            ),
        ),
    }
}

/// The ids of the targets that go before their route does.
pub fn delete_route(id: &str, targets: &Result<Vec<TargetRecord>, String>) -> (r: Result<
    Vec<String>,
    Error,
>)
    ensures
        match targets_of_deleted(id@, stored(*targets)) {
            Ok(ids) => r matches Ok(texts) && texts.deep_view() == ids,
            Err(view) => r matches Err(error) && error.deep_view() == view,
        },
{
    match targets {
        Ok(targets) => Ok(ids_of_targets(targets)),
        Err(detail) => Err(
            Error {
                kind: ErrorKind::InternalError,
                message: join4(
                    "Failed to inspect route targets for '",
                    id,
                    "': ",
                    detail.as_str(),
                ),
            },
        ),
    }
}

/// What a target that could not be removed with its route is reported as.
pub fn target_not_deleted(route_id: &str, target_id: &str, detail: &str) -> (r: Error)
    ensures
        r.deep_view() == error_of(
            ErrorKind::InternalError,
            "Failed to delete target '"@ + target_id@ + "' for route '"@ + route_id@ + "': "@
                + detail@,
        ),
{
    let front = join5("Failed to delete target '", target_id, "' for route '", route_id, "': ");
    Error::about(ErrorKind::InternalError, front.as_str(), detail)
}

/// A change that says nothing leaves a route as it is, and its targets are not
/// touched unless new ones are given.
pub proof fn empty_patch_changes_nothing(
    id: Seq<char>,
    existing: RouteRecordView,
    targets: Seq<TargetRecordView>,
    routes: Result<Seq<RouteRecordView>, Seq<char>>,
    lookups: Seq<Result<bool, Seq<char>>>,
    patch: RoutePatchView,
)
    requires
        patch.targets is None,
    ensures
        patch == (RoutePatchView {
            id: None,
            downstream_model: None,
            description: None,
            enabled: None,
            targets: None,
        }) ==> patched_route(route_of_record(existing, targets), patch) == route_of_record(
            existing,
            targets,
        ),
        route_change(id, Ok(Some(existing)), Ok(targets), Ok(patch)) matches Ok(change) ==> (
        route_updated(id, change, routes, lookups) matches Ok(update) ==> update.removed
            == Seq::<Seq<char>>::empty() && update.added == Seq::<TargetRecordView>::empty()),
{
}

/// A route is stored field by field under its id, and each of its targets under it, in
/// order.
pub proof fn route_is_stored_field_by_field(
    id: Seq<char>,
    route: RouteView,
    targets: Seq<TargetView>,
)
    ensures
        ({
            let row = route_row(id, route);
            &&& row.id == id && row.downstream_model == route.downstream_model
            &&& row.description == route.description
            &&& row.enabled != 0 <==> route.enabled
            &&& row.enabled == 0 || row.enabled == 1
        }),
        target_rows(id, targets).len() == targets.len(),
        forall|i: int|
            0 <= i < targets.len() ==> #[trigger] target_rows(id, targets)[i] == target_row(
                id,
                targets[i],
            ),
{
}

/// A route is created just where what was sent can be read and is accepted, under its
/// own id, or else that of its model, and with all of its targets.
pub proof fn new_route_is_stored_with_its_targets(
    payload: Result<RouteView, Seq<char>>,
    existing: Result<Seq<RouteRecordView>, Seq<char>>,
    lookups: Seq<Result<bool, Seq<char>>>,
)
    ensures
        route_created(payload, existing, lookups) is Ok <==> payload is Ok && route_checked(
            payload->Ok_0,
            None,
            existing,
            lookups,
        ) is Ok,
        route_created(payload, existing, lookups) matches Ok(plan) ==> {
            let route = payload->Ok_0;
            let id = match route.id {
                Some(id) => id,
                None => route.downstream_model,
            };
            &&& plan.route == route_row(id, route)
            &&& plan.targets == target_rows(id, route.targets)
        },
        payload is Err ==> route_created(payload, existing, lookups)->Err_0.kind
            == ErrorKind::RequestInvalid,
{
}

/// A change gives a route the values that it names, each in its own field, and leaves
/// the other fields as they are.
pub proof fn route_change_is_field_by_field(route: RouteView, patch: RoutePatchView)
    ensures
        ({
            let new = patched_route(route, patch);
            &&& patch.downstream_model matches Some(value) ==> new.downstream_model == value
            &&& patch.downstream_model is None ==> new.downstream_model == route.downstream_model
            &&& patch.enabled matches Some(value) ==> new.enabled == value
            &&& patch.enabled is None ==> new.enabled == route.enabled
            &&& patch.targets matches Some(value) ==> new.targets == value
            &&& patch.targets is None ==> new.targets == route.targets
            &&& patch.id is Some ==> new.id == patch.id
            &&& patch.id is None ==> new.id == route.id
            &&& patch.description is Some ==> new.description == patch.description
            &&& patch.description is None ==> new.description == route.description
        }),
{
}

/// A route can be changed just where the store holds it and its targets, the change can
/// be read, and it names no other id; its targets are replaced just where new ones are
/// given.
pub proof fn stored_route_is_changed(
    id: Seq<char>,
    row: Result<Option<RouteRecordView>, Seq<char>>,
    targets: Result<Seq<TargetRecordView>, Seq<char>>,
    patch: Result<RoutePatchView, Seq<char>>,
)
    ensures
        route_change(id, row, targets, patch) is Ok <==> {
            &&& row is Ok && row->Ok_0 is Some && targets is Ok && patch is Ok
            &&& patch->Ok_0.id is None || patch->Ok_0.id == Some(id)
        },
        route_change(id, row, targets, patch) matches Ok(change) ==> {
            &&& row == Ok::<Option<RouteRecordView>, Seq<char>>(Some(change.existing))
            &&& targets == Ok::<Seq<TargetRecordView>, Seq<char>>(change.existing_targets)
            &&& change.replace_targets <==> patch->Ok_0.targets is Some
            &&& change.candidate == patched_route(
                route_of_record(change.existing, change.existing_targets),
                patch->Ok_0,
            )
        },
        row == Ok::<Option<RouteRecordView>, Seq<char>>(None) ==> route_change(
            id,
            row,
            targets,
            patch,
        )->Err_0.kind == ErrorKind::StateNotFound,
{
}

/// An accepted change of a route is written under its old id. Where targets are
/// replaced all the old ones go and all the new ones come; elsewhere none is touched.
pub proof fn targets_are_replaced_as_a_whole(
    id: Seq<char>,
    change: RouteChangeView,
    existing: Result<Seq<RouteRecordView>, Seq<char>>,
    lookups: Seq<Result<bool, Seq<char>>>,
)
    ensures
        route_updated(id, change, existing, lookups) is Ok <==> route_checked(
            change.candidate,
            Some(id),
            existing,
            lookups,
        ) is Ok,
        route_updated(id, change, existing, lookups) matches Ok(update) ==> {
            &&& update.route.id == id
            &&& update.route.downstream_model == change.candidate.downstream_model
            &&& update.route.description == change.candidate.description
            &&& update.route.enabled != 0 <==> change.candidate.enabled
            &&& change.replace_targets ==> {
                &&& update.removed.len() == change.existing_targets.len()
                &&& forall|i: int|
                    0 <= i < update.removed.len() ==> #[trigger] update.removed[i]
                        == change.existing_targets[i].id
                &&& update.added == target_rows(id, change.candidate.targets)
            }
            &&& !change.replace_targets ==> update.removed.len() == 0 && update.added.len() == 0
        },
{
}

/// A change that took no row tells that there is no such route; one that failed is
/// reported by its cause. Before a route goes, all of its targets do.
pub proof fn route_writes_are_told_by_their_rows(
    id: Seq<char>,
    rows: Result<u64, WriteFailure>,
    targets: Result<Seq<TargetRecordView>, Seq<char>>,
)
    ensures
        route_update_result(id, rows) is Ok <==> (rows matches Ok(count) && count > 0),
        rows matches Ok(count) ==> count == 0 ==> route_update_result(id, rows)->Err_0.kind
            == ErrorKind::StateNotFound,
        rows matches Err(failure) ==> route_update_result(id, rows)->Err_0.kind
            == write_failure_kind(failure),
        targets_of_deleted(id, targets) is Ok <==> targets is Ok,
        targets_of_deleted(id, targets) matches Ok(ids) ==> {
            &&& ids.len() == targets->Ok_0.len()
            &&& forall|i: int|
                0 <= i < ids.len() ==> #[trigger] ids[i] == targets->Ok_0[i].id
        },
{
}

/// Routes are listed in order, each with the number of its targets; where they could
/// not be read that is none.
pub proof fn routes_are_listed_in_order(
    rows: Seq<(RouteRecordView, Result<Seq<TargetRecordView>, Seq<char>>)>,
    i: int,
)
    requires
        0 <= i < rows.len(),
    ensures
        listed_routes(rows).len() == rows.len(),
        rows[i].1 matches Ok(targets) ==> targets.len() <= u64::MAX ==> listed_routes(rows)[i]
            == listed_route(rows[i].0, targets.len() as u64),
        rows[i].1 is Err ==> listed_routes(rows)[i] == listed_route(rows[i].0, 0),
{
}

/// A stored route is shown just where the store holds it and its targets, with those
/// targets.
pub proof fn route_is_shown_where_it_is_found(
    id: Seq<char>,
    row: Result<Option<RouteRecordView>, Seq<char>>,
    targets: Result<Seq<TargetRecordView>, Seq<char>>,
)
    ensures
        route_shown(id, row, targets) is Ok <==> row is Ok && row->Ok_0 is Some && targets is Ok,
        route_shown(id, row, targets) matches Ok(shown) ==> shown == shown_route(
            row->Ok_0->0,
            targets->Ok_0,
        ),
        route_shown(id, row, targets) matches Err(error) ==> error.kind == if row is Ok
            && row->Ok_0 is None {
            ErrorKind::StateNotFound
        } else {
            ErrorKind::InternalError
        },
{
}

} // verus!
