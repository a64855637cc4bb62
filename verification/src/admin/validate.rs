//! What a provider, a route and a target must be like to be accepted.

use crate::canonical::{wire_api_named, WireApi};
use crate::config::{
    effective_route_id, route_effective_id, ProviderConfig, ProviderView, RouteConfig, RouteView,
    TargetConfig, TargetView,
};
use crate::error::{error_of, outcome, Error, ErrorKind, ErrorView};
use crate::relay::target::{target_effective_id, target_id_of, UrlVerdict};
use crate::store::{stored, RouteRecord, RouteRecordView};
use crate::text::{
    ascii_lowercased, contains, contains_text, is_among, is_blank, join3, join4, join5,
    part_is_contained, same,
    to_ascii_lowercase, trim,
};
use vstd::prelude::*;

verus! {

/// A refusal of what an administrator sent.
pub open spec fn rejected(message: Seq<char>) -> ErrorView {
    error_of(ErrorKind::RequestInvalid, message)
}

fn reject(message: String) -> (r: Error)
    ensures
        r.deep_view() == rejected(message@),
{
    Error { kind: ErrorKind::RequestInvalid, message }
}

/// Why an address is blocked, where it is.
pub open spec fn block_reason(verdict: UrlVerdict) -> Option<Seq<char>> {
    match verdict {
        UrlVerdict::Safe => None,
        UrlVerdict::Blocked { reason } => Some(reason@),
    }
}

/// The refusal of a provider whose address is blocked.
pub open spec fn address_rejected(provider_id: Seq<char>, reason: Seq<char>) -> ErrorView {
    rejected("Provider '"@ + provider_id + "' base_url rejected by SSRF policy: "@ + reason)
}

fn reject_address(provider_id: &str, reason: &str) -> (r: Error)
    ensures
        r.deep_view() == address_rejected(provider_id@, reason@),
{
    reject(
        join4(
            "Provider '",
            provider_id,
            "' base_url rejected by SSRF policy: ",
            reason,
        ),
    )
}

/// Whether a provider is accepted, given the verdict on its address.
pub open spec fn provider_checked(
    provider: ProviderView,
    blocked: Option<Seq<char>>,
) -> Result<(), ErrorView> {
    if is_blank(provider.id) {
        Err(rejected("Provider id must not be empty"@))
    } else if is_blank(provider.name) {
        Err(rejected("Provider name must not be empty"@))
    } else if is_blank(provider.base_url) {
        Err(rejected("Provider base_url must not be empty"@))
    } else {
        match blocked {
            Some(reason) if !provider.skip_ssrf_validation => Err(
                address_rejected(provider.id, reason),
            ),
            _ => Ok(()),
        }
    }
}

/// Checks a provider. The verdict on its address counts unless the provider is
/// exempt from the check.
pub fn validate_provider_candidate(provider: &ProviderConfig, verdict: &UrlVerdict) -> (r: Result<
    (),
    Error,
>)
    ensures
        outcome(r) == provider_checked(provider.deep_view(), block_reason(*verdict)),
{
    if trim(provider.id.as_str()).is_empty() {
        return Err(Error::new(ErrorKind::RequestInvalid, "Provider id must not be empty"));
    }
    if trim(provider.name.as_str()).is_empty() {
        return Err(Error::new(ErrorKind::RequestInvalid, "Provider name must not be empty"));
    }
    if trim(provider.base_url.as_str()).is_empty() {
        return Err(Error::new(ErrorKind::RequestInvalid, "Provider base_url must not be empty"));
    }
    if provider.skip_ssrf_validation {
        return Ok(());
    }
    match verdict {
        UrlVerdict::Safe => Ok(()),
        UrlVerdict::Blocked { reason } => Err(
            reject_address(provider.id.as_str(), reason.as_str()),
        ),
    }
}

/// Whether a policy for requests that do not fit is a known one.
pub open spec fn is_overflow_policy(policy: Seq<char>) -> bool {
    policy == "reject"@ || policy == "fallback"@ || policy == "summarize_explicit"@
}

/// Whether the store knows a provider.
pub open spec fn known(lookup: Result<bool, String>) -> Result<bool, Seq<char>> {
    match lookup {
        Ok(known) => Ok(known),
        Err(detail) => Err(detail@),
    }
}

/// Whether a target of a route is accepted, given whether the store knows its
/// provider.
pub open spec fn target_checked(
    route_id: Seq<char>,
    downstream_model: Seq<char>,
    target: TargetView,
    lookup: Result<bool, Seq<char>>,
) -> Result<(), ErrorView> {
    let id = target_id_of(route_id, target.provider, target.priority);
    if is_blank(target.provider) {
        Err(rejected("Target provider must not be empty"@))
    } else if is_blank(target.upstream_model) {
        Err(rejected("Target upstream_model must not be empty"@))
    } else {
        match lookup {
            Err(detail) => Err(
                error_of(
                    ErrorKind::InternalError,
                    "Failed to validate provider reference: "@ + detail,
                ),
            ),
            Ok(known) => if !known {
                Err(
                    rejected(
                        "Route '"@ + downstream_model + "' references unknown provider '"@
                            + target.provider + "'"@,
                    ),
                )
            } else if wire_api_named(target.wire_api) is None {
                Err(
                    rejected(
                        "Target '"@ + id + "' has invalid wire_api '"@ + target.wire_api + "'"@,
                    ),
                )
            } else if !is_overflow_policy(target.context_overflow_policy) {
                Err(
                    rejected(
                        "Target '"@ + id + "' has invalid context_overflow_policy '"@
                            + target.context_overflow_policy + "'"@,
                    ),
                )
            } else {
                Ok(())
            },
        }
    }
}

/// Checks a target of a route. `lookup` is whether the store knows its provider.
pub fn validate_target_candidate(
    route_id: &str,
    downstream_model: &str,
    target: &TargetConfig,
    lookup: &Result<bool, String>,
) -> (r: Result<(), Error>)
    ensures
        outcome(r) == target_checked(
            route_id@,
            downstream_model@,
            target.deep_view(),
            known(*lookup),
        ),
{
    if trim(target.provider.as_str()).is_empty() {
        return Err(Error::new(ErrorKind::RequestInvalid, "Target provider must not be empty"));
    }
    if trim(target.upstream_model.as_str()).is_empty() {
        return Err(
            Error::new(ErrorKind::RequestInvalid, "Target upstream_model must not be empty"),
        );
    }
    match lookup {
        Err(detail) => {
            return Err(
                Error::about(
                    ErrorKind::InternalError,
                    "Failed to validate provider reference: ",
                    detail.as_str(),
                ),
            );
        },
        Ok(known) => {
            if !*known {
                return Err(
                    reject(
                        join5(
                            "Route '",
                            downstream_model,
                            "' references unknown provider '",
                            target.provider.as_str(),
                            "'",
                        ),
                    ),
                );
            }
        },
    }
    if WireApi::parse(target.wire_api.as_str()).is_none() {
        let id = target_effective_id(route_id, target);
        return Err(
            reject(
                join5(
                    "Target '",
                    id.as_str(),
                    "' has invalid wire_api '",
                    target.wire_api.as_str(),
                    "'",
                ),
            ),
        );
    }
    let policy = target.context_overflow_policy.as_str();
    if !(same(policy, "reject") || same(policy, "fallback") || same(
        policy,
        "summarize_explicit",
    )) {
        let id = target_effective_id(route_id, target);
        return Err(
            reject(
                join5(
                    "Target '",
                    id.as_str(),
                    "' has invalid context_overflow_policy '",
                    policy,
                    "'",
                ),
            ),
        );
    }
    Ok(())
}

/// Why a route stands in the way of another, where it does.
pub open spec fn collision(
    existing: RouteRecordView,
    candidate_id: Seq<char>,
    downstream_model: Seq<char>,
    existing_route_id: Option<Seq<char>>,
) -> Option<ErrorView> {
    if Some(existing.id) == existing_route_id {
        None
    } else if existing.id == candidate_id {
        Some(rejected("Route '"@ + candidate_id + "' already exists"@))
    } else if existing.downstream_model == downstream_model {
        Some(rejected("Route downstream model '"@ + downstream_model + "' already exists"@))
    } else {
        None
    }
}

/// The first of the routes from `from` on that stands in the way.
pub open spec fn first_collision(
    existing: Seq<RouteRecordView>,
    candidate_id: Seq<char>,
    downstream_model: Seq<char>,
    existing_route_id: Option<Seq<char>>,
    from: int,
) -> Option<ErrorView>
    decreases existing.len() - from,
{
    if from < 0 || from >= existing.len() {
        None
    } else {
        match collision(existing[from], candidate_id, downstream_model, existing_route_id) {
            Some(error) => Some(error),
            None => first_collision(
                existing,
                candidate_id,
                downstream_model,
                existing_route_id,
                from + 1,
            ),
        }
    }
}

/// The id of a target among those of a route.
pub open spec fn id_at(route_id: Seq<char>, targets: Seq<TargetView>, i: int) -> Seq<char> {
    target_id_of(route_id, targets[i].provider, targets[i].priority)
}

/// Whether a target before the one at `i` has the same id.
pub open spec fn id_taken(route_id: Seq<char>, targets: Seq<TargetView>, i: int) -> bool {
    exists|j: int| 0 <= j < i && #[trigger] id_at(route_id, targets, j) == id_at(route_id, targets, i)
}

/// Whether the target at `i` is accepted beside those before it.
pub open spec fn target_at_checked(
    route_id: Seq<char>,
    downstream_model: Seq<char>,
    targets: Seq<TargetView>,
    lookups: Seq<Result<bool, Seq<char>>>,
    i: int,
) -> Result<(), ErrorView> {
    match target_checked(route_id, downstream_model, targets[i], lookups[i]) {
        Err(error) => Err(error),
        Ok(_) => if id_taken(route_id, targets, i) {
            Err(
                rejected(
                    "Route '"@ + downstream_model + "' contains duplicate target id '"@ + id_at(
                        route_id,
                        targets,
                        i,
                    ) + "'"@,
                ),
            )
        } else {
            Ok(())
        },
    }
}

/// Whether the targets from `from` on are accepted.
pub open spec fn targets_checked(
    route_id: Seq<char>,
    downstream_model: Seq<char>,
    targets: Seq<TargetView>,
    lookups: Seq<Result<bool, Seq<char>>>,
    from: int,
) -> Result<(), ErrorView>
    decreases targets.len() - from,
{
    if from < 0 || from >= targets.len() {
        Ok(())
    } else {
        match target_at_checked(route_id, downstream_model, targets, lookups, from) {
            Err(error) => Err(error),
            Ok(_) => targets_checked(route_id, downstream_model, targets, lookups, from + 1),
        }
    }
}

/// Whether a route is accepted beside the stored ones. `existing_route_id` is the
/// id of the stored route that it takes the place of.
pub open spec fn route_checked(
    route: RouteView,
    existing_route_id: Option<Seq<char>>,
    existing: Result<Seq<RouteRecordView>, Seq<char>>,
    lookups: Seq<Result<bool, Seq<char>>>,
) -> Result<(), ErrorView> {
    let id = effective_route_id(route);
    if is_blank(route.downstream_model) {
        Err(rejected("Route downstream_model must not be empty"@))
    } else if route.targets.len() == 0 {
        Err(
            rejected(
                "Route '"@ + route.downstream_model + "' must include at least one target"@,
            ),
        )
    } else {
        match existing {
            Err(detail) => Err(
                error_of(
                    ErrorKind::InternalError,
                    "Failed to validate route candidate: "@ + detail,
                ),
            ),
            Ok(existing) => match first_collision(
                existing,
                id,
                route.downstream_model,
                existing_route_id,
                0,
            ) {
                Some(error) => Err(error),
                None => targets_checked(id, route.downstream_model, route.targets, lookups, 0),
            },
        }
    }
}

/// What the store says of the providers of targets.
pub open spec fn all_known(lookups: Seq<Result<bool, String>>) -> Seq<Result<bool, Seq<char>>> {
    lookups.map_values(|lookup: Result<bool, String>| known(lookup))
}

fn check_collisions(
    existing: &Vec<RouteRecord>,
    candidate_id: &str,
    downstream_model: &str,
    existing_route_id: Option<&str>,
) -> (r: Option<Error>)
    ensures
        r.deep_view() == first_collision(
            existing.deep_view(),
            candidate_id@,
            downstream_model@,
            existing_route_id.deep_view(),
            0,
        ),
{
    let ghost views = existing.deep_view();
    let mut i: usize = 0;
    while i < existing.len()
        invariant
            i <= existing.len(),
            views == existing.deep_view(),
            first_collision(
                views,
                candidate_id@,
                downstream_model@,
                existing_route_id.deep_view(),
                0,
            ) == first_collision(
                views,
                candidate_id@,
                downstream_model@,
                existing_route_id.deep_view(),
                i as int,
            ),
        decreases existing.len() - i,
    {
        assert(views[i as int] == existing@[i as int].deep_view());
        let replaced = match existing_route_id {
            Some(id) => same(existing[i].id.as_str(), id),
            None => false,
        };
        if !replaced {
            if same(existing[i].id.as_str(), candidate_id) {
                return Some(reject(join3("Route '", candidate_id, "' already exists")));
            }
            if same(existing[i].downstream_model.as_str(), downstream_model) {
                return Some(
                    reject(
                        join3("Route downstream model '", downstream_model, "' already exists"),
                    ),
                );
            }
        }
        i = i + 1;
    }
    None
}

fn check_targets(
    route_id: &str,
    downstream_model: &str,
    targets: &Vec<TargetConfig>,
    lookups: &Vec<Result<bool, String>>,
) -> (r: Result<(), Error>)
    requires
        lookups.len() >= targets.len(),
    ensures
        outcome(r) == targets_checked(
            route_id@,
            downstream_model@,
            targets.deep_view(),
            all_known(lookups@),
            0,
        ),
{
    let ghost views = targets.deep_view();
    let ghost answers = all_known(lookups@);
    let mut seen: Vec<String> = Vec::new();
    let mut i: usize = 0;
    while i < targets.len()
        invariant
            i <= targets.len(),
            lookups.len() >= targets.len(),
            views == targets.deep_view(),
            answers == all_known(lookups@),
            seen.deep_view() =~= Seq::new(i as nat, |j: int| id_at(route_id@, views, j)),
            targets_checked(route_id@, downstream_model@, views, answers, 0) == targets_checked(
                route_id@,
                downstream_model@,
                views,
                answers,
                i as int,
            ),
        decreases targets.len() - i,
    {
        assert(views[i as int] == targets@[i as int].deep_view());
        if let Err(error) = validate_target_candidate(
            route_id,
            downstream_model,
            &targets[i],
            &lookups[i],
        ) {
            return Err(error);
        }
        let id = target_effective_id(route_id, &targets[i]);
        let taken = is_among(&seen, id.as_str());
        proof {
            if taken {
                let j = choose|j: int|
                    0 <= j < seen.deep_view().len() && seen.deep_view()[j] == id@;
                assert(id_at(route_id@, views, j) == id_at(route_id@, views, i as int));
            } else if id_taken(route_id@, views, i as int) {
                let j = choose|j: int|
                    0 <= j < i && #[trigger] id_at(route_id@, views, j) == id_at(
                        route_id@,
                        views,
                        i as int,
                    );
                assert(seen.deep_view()[j] == id@);
            }
        }
        if taken {
            return Err(
                reject(
                    join5(
                        "Route '",
                        downstream_model,
                        "' contains duplicate target id '",
                        id.as_str(),
                        "'",
                    ),
                ),
            );
        }
        let ghost before = seen.deep_view();
        let ghost shown = id@;
        seen.push(id);
        assert(seen.deep_view() =~= before.push(shown));
        i = i + 1;
    }
    Ok(())
}

/// Checks a route beside the stored ones. `lookups` tells of each of its targets
/// whether the store knows its provider.
pub fn validate_route_candidate(
    route: &RouteConfig,
    existing_route_id: Option<&str>,
    existing: &Result<Vec<RouteRecord>, String>,
    lookups: &Vec<Result<bool, String>>,
) -> (r: Result<(), Error>)
    requires
        lookups.len() >= route.targets.len(),
    ensures
        outcome(r) == route_checked(
            route.deep_view(),
            existing_route_id.deep_view(),
            stored(*existing),
            all_known(lookups@),
        ),
{
    if trim(route.downstream_model.as_str()).is_empty() {
        return Err(
            Error::new(ErrorKind::RequestInvalid, "Route downstream_model must not be empty"),
        );
    }
    assert(route.targets.deep_view().len() == route.targets@.len());
    if route.targets.len() == 0 {
        return Err(
            reject(
                join3(
                    "Route '",
                    route.downstream_model.as_str(),
                    "' must include at least one target",
                ),
            ),
        );
    }
    let existing = match existing {
        Ok(existing) => existing,
        Err(detail) => {
            return Err(
                Error::about(
                    ErrorKind::InternalError,
                    "Failed to validate route candidate: ",
                    detail.as_str(),
                ),
            );
        },
    };
    let candidate_id = route_effective_id(route);
    if let Some(error) = check_collisions(
        existing,
        candidate_id.as_str(),
        route.downstream_model.as_str(),
        existing_route_id,
    ) {
        return Err(error);
    }
    check_targets(
        candidate_id.as_str(),
        route.downstream_model.as_str(),
        &route.targets,
        lookups,
    )
}

/// An accepted route stands in the way of no stored one but that which it takes
/// the place of, and all its targets are accepted, under ids of their own.
pub proof fn accepted_route_is_unique(
    route: RouteView,
    existing_route_id: Option<Seq<char>>,
    existing: Seq<RouteRecordView>,
    lookups: Seq<Result<bool, Seq<char>>>,
)
    requires
        route_checked(route, existing_route_id, Ok(existing), lookups) is Ok,
    ensures
        route.targets.len() > 0,
        forall|i: int|
            0 <= i < existing.len() && Some((#[trigger] existing[i]).id) != existing_route_id
                ==> existing[i].id != effective_route_id(route) && existing[i].downstream_model
                != route.downstream_model,
        forall|i: int|
            0 <= i < route.targets.len() ==> target_checked(
                effective_route_id(route),
                route.downstream_model,
                #[trigger] route.targets[i],
                lookups[i],
            ) is Ok,
        forall|i: int, j: int|
            0 <= i < j < route.targets.len() ==> #[trigger] id_at(
                effective_route_id(route),
                route.targets,
                i,
            ) != #[trigger] id_at(effective_route_id(route), route.targets, j),
{
    let id = effective_route_id(route);
    assert forall|i: int|
        0 <= i < existing.len() && Some((#[trigger] existing[i]).id)
            != existing_route_id implies existing[i].id != id && existing[i].downstream_model
        != route.downstream_model by {
        lemma_no_collision(existing, id, route.downstream_model, existing_route_id, 0, i);
    }
    assert forall|i: int| 0 <= i < route.targets.len() implies target_checked(
        id,
        route.downstream_model,
        #[trigger] route.targets[i],
        lookups[i],
    ) is Ok by {
        lemma_target_accepted(id, route.downstream_model, route.targets, lookups, 0, i);
    }
    assert forall|i: int, j: int| 0 <= i < j < route.targets.len() implies #[trigger] id_at(
        id,
        route.targets,
        i,
    ) != #[trigger] id_at(id, route.targets, j) by {
        lemma_target_accepted(id, route.downstream_model, route.targets, lookups, 0, j);
    }
}

proof fn lemma_no_collision(
    existing: Seq<RouteRecordView>,
    candidate_id: Seq<char>,
    downstream_model: Seq<char>,
    existing_route_id: Option<Seq<char>>,
    from: int,
    i: int,
)
    requires
        first_collision(existing, candidate_id, downstream_model, existing_route_id, from) is None,
        0 <= from <= i < existing.len(),
    ensures
        collision(existing[i], candidate_id, downstream_model, existing_route_id) is None,
    decreases i - from,
{
    if from < i {
        lemma_no_collision(
            existing,
            candidate_id,
            downstream_model,
            existing_route_id,
            from + 1,
            i,
        );
    }
}

proof fn lemma_target_accepted(
    route_id: Seq<char>,
    downstream_model: Seq<char>,
    targets: Seq<TargetView>,
    lookups: Seq<Result<bool, Seq<char>>>,
    from: int,
    i: int,
)
    requires
        targets_checked(route_id, downstream_model, targets, lookups, from) is Ok,
        0 <= from <= i < targets.len(),
    ensures
        target_at_checked(route_id, downstream_model, targets, lookups, i) is Ok,
    decreases i - from,
{
    if from < i {
        lemma_target_accepted(route_id, downstream_model, targets, lookups, from + 1, i);
    }
}

/// Whether a failure to write says that a row of that name is there already.
pub open spec fn says_duplicate(message: Seq<char>) -> bool {
    let lower = ascii_lowercased(message);
    contains_text(lower, "unique constraint"@) || contains_text(lower, "duplicate key"@)
        || contains_text(lower, "already exists"@)
}

/// A failure to write to the store.
#[derive(Debug)]
pub struct WriteFailure {
    /// What is reported of it.
    pub detail: String,
    /// The message of the database, where the failure is one of the database.
    pub database_message: Option<String>,
    /// Whether the database calls it a violation of uniqueness.
    pub unique_violation: bool,
}

/// Whether a failure to write is one of uniqueness.
pub open spec fn is_duplicate(failure: WriteFailure) -> bool {
    failure.database_message matches Some(message) && (failure.unique_violation || says_duplicate(
        message@,
    ))
}

/// Whether a failure to write is one of uniqueness.
pub fn is_unique_violation(failure: &WriteFailure) -> (r: bool)
    ensures
        r == is_duplicate(*failure),
{
    match &failure.database_message {
        Some(message) => {
            if failure.unique_violation {
                return true;
            }
            let lower = to_ascii_lowercase(message.as_str());
            contains(lower.as_str(), "unique constraint") || contains(
                lower.as_str(),
                "duplicate key",
            ) || contains(lower.as_str(), "already exists")
        },
        None => false,
    }
}

/// The kind of error that a failure to write is reported as: what is there
/// already is the administrator's fault.
pub open spec fn write_failure_kind(failure: WriteFailure) -> ErrorKind {
    if is_duplicate(failure) {
        ErrorKind::RequestInvalid
    } else {
        ErrorKind::InternalError
    }
}

/// What a failure to write is reported as, with what it was about in front.
pub fn write_failure(front: &str, name: &str, middle: &str, failure: &WriteFailure) -> (r: Error)
    ensures
        r.deep_view() == error_of(
            write_failure_kind(*failure),
            front@ + name@ + middle@ + failure.detail@,
        ),
{
    let kind = if is_unique_violation(failure) {
        ErrorKind::RequestInvalid
    } else {
        ErrorKind::InternalError
    };
    Error { kind, message: join4(front, name, middle, failure.detail.as_str()) }
}

/// A provider is accepted just where its id, its name and its address are not blank,
/// and the address is safe or exempt from the check; any other is refused as a fault of
/// the request.
pub proof fn provider_is_accepted_where_it_is_complete(
    provider: ProviderView,
    blocked: Option<Seq<char>>,
)
    ensures
        provider_checked(provider, blocked) is Ok <==> {
            &&& !is_blank(provider.id) && !is_blank(provider.name) && !is_blank(provider.base_url)
            &&& blocked is None || provider.skip_ssrf_validation
        },
        provider_checked(provider, blocked) matches Err(error) ==> error.kind
            == ErrorKind::RequestInvalid,
{
}

/// An address is blocked just where the verdict says so, and for the reason that it
/// gives.
pub proof fn verdict_gives_the_reason(reason: String)
    ensures
        block_reason(UrlVerdict::Safe) is None,
        block_reason(UrlVerdict::Blocked { reason }) == Some(reason@),
{
}

/// A target is accepted just where its provider and its model are not blank, the store
/// knows the provider, and its protocol and its policy are known ones. Only a store
/// that failed is no fault of the request.
pub proof fn target_is_accepted_where_it_is_complete(
    route_id: Seq<char>,
    downstream_model: Seq<char>,
    target: TargetView,
    lookup: Result<bool, Seq<char>>,
)
    ensures
        target_checked(route_id, downstream_model, target, lookup) is Ok <==> {
            &&& !is_blank(target.provider) && !is_blank(target.upstream_model)
            &&& lookup == Ok::<bool, Seq<char>>(true)
            &&& wire_api_named(target.wire_api) is Some
            &&& target.context_overflow_policy == "reject"@ || target.context_overflow_policy
                == "fallback"@ || target.context_overflow_policy == "summarize_explicit"@
        },
        target_checked(route_id, downstream_model, target, lookup) matches Err(error) ==> {
            ||| error.kind == ErrorKind::RequestInvalid
            ||| error.kind == ErrorKind::InternalError && lookup is Err
        },
        lookup is Err && !is_blank(target.provider) && !is_blank(target.upstream_model)
            ==> target_checked(route_id, downstream_model, target, lookup)->Err_0.kind
            == ErrorKind::InternalError,
{
}

/// A route is accepted where it has a model and targets, no other stored route has its
/// id or its model, each target is accepted, and no two targets have one id.
pub proof fn sound_route_is_accepted(
    route: RouteView,
    existing_route_id: Option<Seq<char>>,
    existing: Seq<RouteRecordView>,
    lookups: Seq<Result<bool, Seq<char>>>,
)
    requires
        !is_blank(route.downstream_model),
        route.targets.len() > 0,
        forall|i: int|
            0 <= i < existing.len() && Some((#[trigger] existing[i]).id) != existing_route_id
                ==> existing[i].id != effective_route_id(route) && existing[i].downstream_model
                != route.downstream_model,
        forall|i: int|
            0 <= i < route.targets.len() ==> target_checked(
                effective_route_id(route),
                route.downstream_model,
                #[trigger] route.targets[i],
                lookups[i],
            ) is Ok,
        forall|i: int, j: int|
            0 <= i < j < route.targets.len() ==> #[trigger] id_at(
                effective_route_id(route),
                route.targets,
                i,
            ) != #[trigger] id_at(effective_route_id(route), route.targets, j),
    ensures
        route_checked(route, existing_route_id, Ok(existing), lookups) is Ok,
{
    let id = effective_route_id(route);
    lemma_nothing_collides(existing, id, route.downstream_model, existing_route_id, 0);
    lemma_all_accepted(id, route.downstream_model, route.targets, lookups, 0);
}

proof fn lemma_nothing_collides(
    existing: Seq<RouteRecordView>,
    candidate_id: Seq<char>,
    downstream_model: Seq<char>,
    existing_route_id: Option<Seq<char>>,
    from: int,
)
    requires
        0 <= from,
        forall|i: int|
            0 <= i < existing.len() && Some((#[trigger] existing[i]).id) != existing_route_id
                ==> existing[i].id != candidate_id && existing[i].downstream_model
                != downstream_model,
    ensures
        first_collision(existing, candidate_id, downstream_model, existing_route_id, from) is None,
    decreases existing.len() - from,
{
    if from < existing.len() {
        lemma_nothing_collides(
            existing,
            candidate_id,
            downstream_model,
            existing_route_id,
            from + 1,
        );
    }
}

proof fn lemma_all_accepted(
    route_id: Seq<char>,
    downstream_model: Seq<char>,
    targets: Seq<TargetView>,
    lookups: Seq<Result<bool, Seq<char>>>,
    from: int,
)
    requires
        0 <= from,
        forall|i: int|
            0 <= i < targets.len() ==> target_checked(
                route_id,
                downstream_model,
                #[trigger] targets[i],
                lookups[i],
            ) is Ok,
        forall|i: int, j: int|
            0 <= i < j < targets.len() ==> #[trigger] id_at(route_id, targets, i)
                != #[trigger] id_at(route_id, targets, j),
    ensures
        targets_checked(route_id, downstream_model, targets, lookups, from) is Ok,
    decreases targets.len() - from,
{
    if from < targets.len() {
        assert(target_checked(route_id, downstream_model, targets[from], lookups[from]) is Ok);
        lemma_all_accepted(route_id, downstream_model, targets, lookups, from + 1);
    }
}

/// A stored route stands in the way of another just where it has its id or its model,
/// and is not the one that the other takes the place of.
pub proof fn routes_collide_by_id_or_model(
    existing: RouteRecordView,
    candidate_id: Seq<char>,
    downstream_model: Seq<char>,
    existing_route_id: Option<Seq<char>>,
)
    ensures
        collision(existing, candidate_id, downstream_model, existing_route_id) is Some <==> {
            &&& existing_route_id != Some(existing.id)
            &&& existing.id == candidate_id || existing.downstream_model == downstream_model
        },
        collision(existing, candidate_id, downstream_model, existing_route_id) matches Some(error)
            ==> error.kind == ErrorKind::RequestInvalid,
{
}

/// A failure to write is the administrator's fault just where the database says, by its
/// code or in words of either case, that such a row is there already.
pub proof fn duplicates_are_the_administrators_fault(failure: WriteFailure)
    ensures
        write_failure_kind(failure) == ErrorKind::RequestInvalid
            <==> failure.database_message is Some && ({
            let said = ascii_lowercased(failure.database_message->0@);
            ||| failure.unique_violation
            ||| contains_text(said, "unique constraint"@)
            ||| contains_text(said, "duplicate key"@)
            ||| contains_text(said, "already exists"@)
        }),
        write_failure_kind(failure) == ErrorKind::RequestInvalid || write_failure_kind(failure)
            == ErrorKind::InternalError,
{
}

/// A refusal names what it is about: the provider whose address is blocked with the
/// reason, the provider that is not known with the model of the route, the protocol or
/// the policy that is not known with the id of the target, and the route or model that
/// is there already.
pub proof fn refusals_name_their_cause(
    route_id: Seq<char>,
    downstream_model: Seq<char>,
    target: TargetView,
    provider_id: Seq<char>,
    reason: Seq<char>,
    existing: RouteRecordView,
)
    requires
        !is_blank(target.provider) && !is_blank(target.upstream_model),
    ensures
        contains_text(address_rejected(provider_id, reason).message, provider_id),
        contains_text(address_rejected(provider_id, reason).message, reason),
        contains_text(
            target_checked(route_id, downstream_model, target, Ok(false))->Err_0.message,
            target.provider,
        ),
        contains_text(
            target_checked(route_id, downstream_model, target, Ok(false))->Err_0.message,
            downstream_model,
        ),
        wire_api_named(target.wire_api) is None ==> contains_text(
            target_checked(route_id, downstream_model, target, Ok(true))->Err_0.message,
            target.wire_api,
        ),
        wire_api_named(target.wire_api) is Some && target_checked(
            route_id,
            downstream_model,
            target,
            Ok(true),
        ) is Err ==> contains_text(
            target_checked(route_id, downstream_model, target, Ok(true))->Err_0.message,
            target.context_overflow_policy,
        ),
        collision(existing, existing.id, downstream_model, None) matches Some(error)
            && contains_text(error.message, existing.id),
        existing.id != route_id ==> (collision(
            existing,
            route_id,
            existing.downstream_model,
            None,
        ) matches Some(error) && contains_text(error.message, existing.downstream_model)),
{
    let start = "Provider '"@;
    let middle = "' base_url rejected by SSRF policy: "@;
    part_is_contained(start, provider_id, middle + reason);
    assert(start + provider_id + (middle + reason) =~= start + provider_id + middle + reason);
    part_is_contained(start + provider_id + middle, reason, Seq::empty());
    assert(start + provider_id + middle + reason + Seq::empty() =~= start + provider_id + middle
        + reason);
    let front = "Route '"@;
    let between = "' references unknown provider '"@;
    let end = "'"@;
    part_is_contained(front + downstream_model + between, target.provider, end);
    part_is_contained(front, downstream_model, between + target.provider + end);
    assert(front + downstream_model + (between + target.provider + end) =~= front
        + downstream_model + between + target.provider + end);
    let id = target_id_of(route_id, target.provider, target.priority);
    part_is_contained("Target '"@ + id + "' has invalid wire_api '"@, target.wire_api, end);
    part_is_contained(
        "Target '"@ + id + "' has invalid context_overflow_policy '"@,
        target.context_overflow_policy,
        end,
    );
    part_is_contained(front, existing.id, "' already exists"@);
    part_is_contained(
        "Route downstream model '"@,
        existing.downstream_model,
        "' already exists"@,
    );
}

/// A route without a model or without targets is a fault of the request, whatever the
/// store says; stored routes that could not be read are not.
pub proof fn incomplete_route_is_refused(
    route: RouteView,
    existing_route_id: Option<Seq<char>>,
    existing: Result<Seq<RouteRecordView>, Seq<char>>,
    lookups: Seq<Result<bool, Seq<char>>>,
)
    ensures
        is_blank(route.downstream_model) || route.targets.len() == 0 ==> (route_checked(
            route,
            existing_route_id,
            existing,
            lookups,
        ) matches Err(error) && error.kind == ErrorKind::RequestInvalid),
        !is_blank(route.downstream_model) && route.targets.len() > 0 && existing is Err ==> (
        route_checked(route, existing_route_id, existing, lookups) matches Err(error)
            && error.kind == ErrorKind::InternalError),
{
}

} // verus!
