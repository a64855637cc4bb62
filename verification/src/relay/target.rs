//! The targets of a route as a request sees them: chosen once at its start and
//! not changed after.

use crate::canonical::{wire_api_named, WireApi};
use crate::config::{
    effective_route_id, route_effective_id, ProviderConfig, ProviderView, RouteConfig, RouteView,
    TargetConfig, TargetView,
};
use crate::error::{error_of, outcome, Error, ErrorKind, ErrorView};
use crate::text::{
    contains_text, copy_opt, is_among, join3, join5, occurs_at, same, signed_decimal,
    signed_decimal_of, strip_prefix, without_prefix,
};
use vstd::prelude::*;

verus! {

/// What the check of a provider's address came to.
#[derive(Debug)]
pub enum UrlVerdict {
    Safe,
    Blocked { reason: String },
}

/// A target of a route with what belongs to it: its provider, where that is
/// known, and the verdict on the provider's address.
#[derive(Debug)]
pub struct TargetCandidate {
    pub target: TargetConfig,
    pub provider: Option<ProviderConfig>,
    pub url_verdict: UrlVerdict,
}

/// The mathematical value of a [`TargetCandidate`].
#[verifier::ext_equal]
pub struct CandidateView {
    pub target: TargetView,
    pub provider: Option<ProviderView>,
    pub url_safe: bool,
}

impl DeepView for TargetCandidate {
    type V = CandidateView;

    open spec fn deep_view(&self) -> CandidateView {
        CandidateView {
            target: self.target.deep_view(),
            provider: self.provider.deep_view(),
            url_safe: self.url_verdict is Safe,
        }
    }
}

/// Immutable target data selected at request start.
#[derive(Debug)]
pub struct TargetSnapshot {
    pub target_id: String,
    pub provider_id: String,
    pub provider_name: String,
    pub provider_base_url: String,
    pub provider_auth_mode: String,
    pub provider_api_key: Option<String>,
    pub state_scope: Option<String>,
    pub upstream_model: String,
    pub configured_wire_api: WireApi,
    pub priority: i32,
    pub context_window_tokens: Option<u64>,
    pub max_output_tokens: Option<u64>,
    pub context_safety_margin_tokens: Option<u64>,
    pub context_overflow_policy: String,
}

/// The mathematical value of a [`TargetSnapshot`].
#[verifier::ext_equal]
pub struct SnapshotView {
    pub target_id: Seq<char>,
    pub provider_id: Seq<char>,
    pub provider_name: Seq<char>,
    pub provider_base_url: Seq<char>,
    pub provider_auth_mode: Seq<char>,
    pub provider_api_key: Option<Seq<char>>,
    pub state_scope: Option<Seq<char>>,
    pub upstream_model: Seq<char>,
    pub configured_wire_api: WireApi,
    pub priority: i32,
    pub context_window_tokens: Option<u64>,
    pub max_output_tokens: Option<u64>,
    pub context_safety_margin_tokens: Option<u64>,
    pub context_overflow_policy: Seq<char>,
}

impl DeepView for TargetSnapshot {
    type V = SnapshotView;

    open spec fn deep_view(&self) -> SnapshotView {
        SnapshotView {
            target_id: self.target_id@,
            provider_id: self.provider_id@,
            provider_name: self.provider_name@,
            provider_base_url: self.provider_base_url@,
            provider_auth_mode: self.provider_auth_mode@,
            provider_api_key: self.provider_api_key.deep_view(),
            state_scope: self.state_scope.deep_view(),
            upstream_model: self.upstream_model@,
            configured_wire_api: self.configured_wire_api,
            priority: self.priority,
            context_window_tokens: self.context_window_tokens,
            max_output_tokens: self.max_output_tokens,
            context_safety_margin_tokens: self.context_safety_margin_tokens,
            context_overflow_policy: self.context_overflow_policy@,
        }
    }
}

/// Immutable route data selected at request start.
#[derive(Debug)]
pub struct RouteSnapshot {
    pub route_id: String,
    pub downstream_model: String,
    pub targets: Vec<TargetSnapshot>,
}

/// The mathematical value of a [`RouteSnapshot`].
#[verifier::ext_equal]
pub struct RouteSnapshotView {
    pub route_id: Seq<char>,
    pub downstream_model: Seq<char>,
    pub targets: Seq<SnapshotView>,
}

impl DeepView for RouteSnapshot {
    type V = RouteSnapshotView;

    open spec fn deep_view(&self) -> RouteSnapshotView {
        RouteSnapshotView {
            route_id: self.route_id@,
            downstream_model: self.downstream_model@,
            targets: self.targets.deep_view(),
        }
    }
}

/// The id of a target: that of its route, its provider and its priority, with
/// colons between.
pub open spec fn target_id_of(
    route_id: Seq<char>,
    provider: Seq<char>,
    priority: i32,
) -> Seq<char> {
    route_id + ":"@ + provider + ":"@ + signed_decimal(priority as int)
}

/// The id of a target of a route.
pub fn target_effective_id(route_id: &str, target: &TargetConfig) -> (r: String)
    ensures
        r@ == target_id_of(route_id@, target.provider@, target.priority),
{
    let priority = signed_decimal_of(target.priority as i64);
    join5(route_id, ":", target.provider.as_str(), ":", priority.as_str())
}

/// The protocol configured for a target: its own, or else its provider's, or
/// else one to be probed.
pub open spec fn configured_api(target: TargetView, provider: ProviderView) -> WireApi {
    match wire_api_named(target.wire_api) {
        Some(api) => api,
        None => match wire_api_named(provider.default_wire_api) {
            Some(api) => api,
            None => WireApi::Auto,
        },
    }
}

/// Whether a provider is within the scope of a relay key.
pub open spec fn in_scope(allowed: Option<Seq<Seq<char>>>, provider_id: Seq<char>) -> bool {
    allowed matches Some(ids) ==> ids.contains(provider_id)
}

/// Whether a candidate may serve: its provider is known, in scope, and has an
/// address that is safe or exempt from the check.
pub open spec fn may_serve(candidate: CandidateView, allowed: Option<Seq<Seq<char>>>) -> bool {
    candidate.provider matches Some(provider) && in_scope(allowed, provider.id) && (
    provider.skip_ssrf_validation || candidate.url_safe)
}

/// The snapshot of a target with its provider.
pub open spec fn snapshot_of(
    route_id: Seq<char>,
    target: TargetView,
    provider: ProviderView,
) -> SnapshotView {
    SnapshotView {
        target_id: target_id_of(route_id, target.provider, target.priority),
        provider_id: provider.id,
        provider_name: provider.name,
        provider_base_url: provider.base_url,
        provider_auth_mode: provider.auth_mode,
        provider_api_key: provider.api_key,
        state_scope: provider.state_scope,
        upstream_model: target.upstream_model,
        configured_wire_api: configured_api(target, provider),
        priority: target.priority,
        context_window_tokens: target.context_window_tokens,
        max_output_tokens: target.max_output_tokens,
        context_safety_margin_tokens: target.context_safety_margin_tokens,
        context_overflow_policy: target.context_overflow_policy,
    }
}

/// The snapshots of the candidates that may serve, in order.
pub open spec fn serving_targets(
    route_id: Seq<char>,
    candidates: Seq<CandidateView>,
    allowed: Option<Seq<Seq<char>>>,
) -> Seq<SnapshotView>
    decreases candidates.len(),
{
    if candidates.len() == 0 {
        Seq::empty()
    } else {
        let front = serving_targets(route_id, candidates.drop_last(), allowed);
        let last = candidates.last();
        if may_serve(last, allowed) {
            front.push(snapshot_of(route_id, last.target, last.provider->Some_0))
        } else {
            front
        }
    }
}

/// The route as a request for `downstream_model` sees it.
pub open spec fn route_snapshot_of(
    route: Option<RouteView>,
    downstream_model: Seq<char>,
    candidates: Seq<CandidateView>,
    allowed: Option<Seq<Seq<char>>>,
) -> Result<RouteSnapshotView, ErrorView> {
    match route {
        None => Err(
            error_of(ErrorKind::ModelNotFound, "Model '"@ + downstream_model + "' not found"@),
        ),
        Some(route) => {
            let route_id = effective_route_id(route);
            let targets = serving_targets(route_id, candidates, allowed);
            if !route.enabled {
                Err(
                    error_of(
                        ErrorKind::ModelNotFound,
                        "Model '"@ + downstream_model + "' is disabled"@,
                    ),
                )
            } else if targets.len() > 0 {
                Ok(
                    RouteSnapshotView {
                        route_id,
                        downstream_model: route.downstream_model,
                        targets,
                    },
                )
            } else if allowed is Some {
                Err(
                    error_of(
                        ErrorKind::AuthFailed,
                        "Relay key is not allowed to access any provider for model '"@
                            + route.downstream_model + "'"@,
                    ),
                )
            } else {
                Err(error_of(ErrorKind::UpstreamUnavailable, "No upstream targets configured"@))
            }
        },
    }
}

/// The snapshot of a candidate, where it may serve.
fn snapshot_candidate(
    route_id: &str,
    candidate: &TargetCandidate,
    allowed_providers: Option<&Vec<String>>,
) -> (r: Option<TargetSnapshot>)
    ensures
        match r {
            Some(snapshot) => {
                &&& may_serve(candidate.deep_view(), allowed_providers.deep_view())
                &&& snapshot.deep_view() == snapshot_of(
                    route_id@,
                    candidate.target.deep_view(),
                    candidate.deep_view().provider->Some_0,
                )
            },
            None => !may_serve(candidate.deep_view(), allowed_providers.deep_view()),
        },
{
    let target = &candidate.target;
    let provider: &ProviderConfig = match &candidate.provider {
        Some(provider) => provider,
        None => {
            return None;
        },
    };
    if let Some(ids) = allowed_providers {
        if !is_among(ids, provider.id.as_str()) {
            return None;
        }
    }
    if !provider.skip_ssrf_validation {
        match &candidate.url_verdict {
            UrlVerdict::Safe => {},
            UrlVerdict::Blocked { reason: _ } => {
                return None;
            },
        }
    }
    let configured_wire_api = match WireApi::parse(target.wire_api.as_str()) {
        Some(api) => api,
        None => match WireApi::parse(provider.default_wire_api.as_str()) {
            Some(api) => api,
            None => WireApi::Auto,
        },
    };
    Some(
        TargetSnapshot {
            target_id: target_effective_id(route_id, target),
            provider_id: provider.id.clone(),
            provider_name: provider.name.clone(),
            provider_base_url: provider.base_url.clone(),
            provider_auth_mode: provider.auth_mode.clone(),
            provider_api_key: copy_opt(&provider.api_key),
            state_scope: copy_opt(&provider.state_scope),
            upstream_model: target.upstream_model.clone(),
            configured_wire_api,
            priority: target.priority,
            context_window_tokens: target.context_window_tokens,
            max_output_tokens: target.max_output_tokens,
            context_safety_margin_tokens: target.context_safety_margin_tokens,
            context_overflow_policy: target.context_overflow_policy.clone(),
        },
    )
}

/// The route as a request for `downstream_model` sees it. `candidates` are the
/// route's targets in the order in which they are to be tried.
pub fn snapshot_route(
    route: Option<&RouteConfig>,
    downstream_model: &str,
    candidates: &Vec<TargetCandidate>,
    allowed_providers: Option<&Vec<String>>,
) -> (r: Result<RouteSnapshot, Error>)
    ensures
        outcome(r) == route_snapshot_of(
            route.deep_view(),
            downstream_model@,
            candidates.deep_view(),
            allowed_providers.deep_view(),
        ),
{
    let found: &RouteConfig = match route {
        Some(found) => found,
        None => {
            return Err(
                Error {
                    kind: ErrorKind::ModelNotFound,
                    message: join3("Model '", downstream_model, "' not found"),
                },
            );
        },
    };
    if !found.enabled {
        return Err(
            Error {
                kind: ErrorKind::ModelNotFound,
                message: join3("Model '", downstream_model, "' is disabled"),
            },
        );
    }
    let route_id = route_effective_id(found);
    let ghost views = candidates.deep_view();
    let mut targets: Vec<TargetSnapshot> = Vec::new();
    let mut i: usize = 0;
    assert(targets.deep_view() =~= Seq::empty());
    assert(views.take(0) =~= Seq::empty());
    while i < candidates.len()
        invariant
            i <= candidates.len(),
            views == candidates.deep_view(),
            targets.deep_view() == serving_targets(
                route_id@,
                views.take(i as int),
                allowed_providers.deep_view(),
            ),
        decreases candidates.len() - i,
    {
        assert(views.take(i + 1).drop_last() =~= views.take(i as int));
        let ghost before = targets.deep_view();
        if let Some(snapshot) = snapshot_candidate(
            route_id.as_str(),
            &candidates[i],
            allowed_providers,
        ) {
            let ghost shown = snapshot.deep_view();
            targets.push(snapshot);
            assert(targets.deep_view() =~= before.push(shown));
        }
        i = i + 1;
    }
    assert(views.take(views.len() as int) =~= views);
    assert(targets.deep_view().len() == targets@.len());
    if targets.len() == 0 {
        if allowed_providers.is_some() {
            return Err(
                Error {
                    kind: ErrorKind::AuthFailed,
                    message: join3(
                        "Relay key is not allowed to access any provider for model '",
                        found.downstream_model.as_str(),
                        "'",
                    ),
                },
            );
        }
        return Err(Error::new(ErrorKind::UpstreamUnavailable, "No upstream targets configured"));
    }
    Ok(RouteSnapshot { route_id, downstream_model: found.downstream_model.clone(), targets })
}

/// A request under a relay key with a provider scope is never sent to a
/// provider outside that scope.
pub proof fn snapshot_stays_in_scope(
    route: Option<RouteView>,
    downstream_model: Seq<char>,
    candidates: Seq<CandidateView>,
    allowed: Option<Seq<Seq<char>>>,
)
    ensures
        route_snapshot_of(route, downstream_model, candidates, allowed) matches Ok(snapshot)
            ==> snapshot.targets.len() > 0 && forall|i: int|
            0 <= i < snapshot.targets.len() ==> in_scope(
                allowed,
                (#[trigger] snapshot.targets[i]).provider_id,
            ),
{
    if let Some(route) = route {
        lemma_targets_in_scope(effective_route_id(route), candidates, allowed);
    }
}

proof fn lemma_targets_in_scope(
    route_id: Seq<char>,
    candidates: Seq<CandidateView>,
    allowed: Option<Seq<Seq<char>>>,
)
    ensures
        forall|i: int|
            0 <= i < serving_targets(route_id, candidates, allowed).len() ==> in_scope(
                allowed,
                (#[trigger] serving_targets(route_id, candidates, allowed)[i]).provider_id,
            ),
    decreases candidates.len(),
{
    if candidates.len() > 0 {
        lemma_targets_in_scope(route_id, candidates.drop_last(), allowed);
    }
}

/// The key that a bearer header carries, where it is one.
pub open spec fn bearer_of(value: Seq<char>) -> Option<Seq<char>> {
    without_prefix(value, "Bearer "@)
}

/// The key that a bearer header carries, where it is one.
pub fn strip_bearer<'a>(value: &'a str) -> (r: Option<&'a str>)
    ensures
        r.deep_view() == bearer_of(value@),
{
    strip_prefix(value, "Bearer ")
}

/// The key for an upstream: the client's own where the provider passes it on
/// and the client sent one, or else the provider's.
pub open spec fn upstream_key_of(
    target: SnapshotView,
    authorization: Option<Seq<char>>,
) -> Option<Seq<char>> {
    let passed = match authorization {
        Some(value) => bearer_of(value),
        None => None,
    };
    if target.provider_auth_mode == "pass_authorization"@ && passed is Some {
        passed
    } else {
        target.provider_api_key
    }
}

/// The key for an upstream.
pub fn resolve_upstream_key(
    target: &TargetSnapshot,
    downstream_authorization: Option<&str>,
) -> (r: Option<String>)
    ensures
        r.deep_view() == upstream_key_of(target.deep_view(), downstream_authorization.deep_view()),
{
    if same(target.provider_auth_mode.as_str(), "pass_authorization") {
        if let Some(value) = downstream_authorization {
            if let Some(key) = strip_bearer(value) {
                return Some(key.to_owned());
            }
        }
    }
    copy_opt(&target.provider_api_key)
}

/// The key for an upstream; a managed provider must have one.
pub open spec fn checked_key_of(
    target: SnapshotView,
    authorization: Option<Seq<char>>,
) -> Result<Option<Seq<char>>, ErrorView> {
    let key = upstream_key_of(target, authorization);
    if target.provider_auth_mode == "managed"@ && key is None {
        Err(error_of(ErrorKind::InternalError, "Managed provider key is missing"@))
    } else {
        Ok(key)
    }
}

/// The key for an upstream; a managed provider must have one.
pub fn resolve_upstream_key_checked(
    target: &TargetSnapshot,
    downstream_authorization: Option<&str>,
) -> (r: Result<Option<String>, Error>)
    ensures
        outcome(r) == checked_key_of(target.deep_view(), downstream_authorization.deep_view()),
{
    let key = resolve_upstream_key(target, downstream_authorization);
    if same(target.provider_auth_mode.as_str(), "managed") && key.is_none() {
        return Err(Error::new(ErrorKind::InternalError, "Managed provider key is missing"));
    }
    Ok(key)
}

/// A managed provider's key is its own: no client's key is ever sent to it.
pub proof fn managed_key_is_the_providers(target: SnapshotView, authorization: Option<Seq<char>>)
    requires
        target.provider_auth_mode == "managed"@,
    ensures
        upstream_key_of(target, authorization) == target.provider_api_key,
{
    reveal_strlit("managed");
    reveal_strlit("pass_authorization");
    assert("managed"@.len() != "pass_authorization"@.len());
}

/// A target of a route's snapshot is that of a candidate that may serve, and those
/// that may serve are all there, in order. Its address, key, mode of authentication
/// and state scope are those of the candidate's own provider; its model, priority,
/// limits and policy are those of the candidate's own target.
pub proof fn snapshot_is_of_its_candidates(
    route_id: Seq<char>,
    candidates: Seq<CandidateView>,
    allowed: Option<Seq<Seq<char>>>,
) -> (places: Seq<int>)
    ensures
        places.len() == serving_targets(route_id, candidates, allowed).len(),
        forall|i: int, j: int| 0 <= i < j < places.len() ==> places[i] < places[j],
        forall|i: int|
            0 <= i < places.len() ==> {
                let snapshot = serving_targets(route_id, candidates, allowed)[i];
                let candidate = candidates[#[trigger] places[i]];
                let provider = candidate.provider->0;
                let target = candidate.target;
                &&& 0 <= places[i] < candidates.len() && candidate.provider is Some
                &&& snapshot.provider_id == provider.id
                &&& snapshot.provider_name == provider.name
                &&& snapshot.provider_base_url == provider.base_url
                &&& snapshot.provider_auth_mode == provider.auth_mode
                &&& snapshot.provider_api_key == provider.api_key
                &&& snapshot.state_scope == provider.state_scope
                &&& snapshot.upstream_model == target.upstream_model
                &&& snapshot.priority == target.priority
                &&& snapshot.context_window_tokens == target.context_window_tokens
                &&& snapshot.max_output_tokens == target.max_output_tokens
                &&& snapshot.context_safety_margin_tokens == target.context_safety_margin_tokens
                &&& snapshot.context_overflow_policy == target.context_overflow_policy
                &&& snapshot.target_id == route_id + ":"@ + target.provider + ":"@
                    + signed_decimal(target.priority as int)
            },
        forall|k: int|
            0 <= k < candidates.len() ==> (places.contains(k) <==> {
                let candidate = #[trigger] candidates[k];
                &&& candidate.provider is Some
                &&& allowed is Some ==> allowed->0.contains(candidate.provider->0.id)
                &&& candidate.url_safe || candidate.provider->0.skip_ssrf_validation
            }),
    decreases candidates.len(),
{
    if candidates.len() == 0 {
        Seq::empty()
    } else {
        let front = candidates.drop_last();
        let last = candidates.len() - 1;
        let before = snapshot_is_of_its_candidates(route_id, front, allowed);
        let serving = serving_targets(route_id, candidates, allowed);
        let places = if may_serve(candidates.last(), allowed) {
            before.push(last)
        } else {
            before
        };
        assert forall|i: int| 0 <= i < before.len() implies 0 <= #[trigger] before[i] < last
            && places[i] == before[i] && serving[i] == serving_targets(route_id, front, allowed)[i]
            && front[before[i]] == candidates[before[i]] by {}
        assert forall|k: int| 0 <= k < candidates.len() implies (places.contains(k) <==> {
            let candidate = #[trigger] candidates[k];
            &&& candidate.provider is Some
            &&& allowed is Some ==> allowed->0.contains(candidate.provider->0.id)
            &&& candidate.url_safe || candidate.provider->0.skip_ssrf_validation
        }) by {
            if k < last {
                assert(front[k] == candidates[k]);
                if before.contains(k) {
                    let i = choose|i: int| 0 <= i < before.len() && before[i] == k;
                    assert(places[i] == k);
                }
                if places.contains(k) {
                    let i = choose|i: int| 0 <= i < places.len() && places[i] == k;
                    assert(before[i] == k);
                }
            } else {
                if may_serve(candidates.last(), allowed) {
                    assert(places[before.len() as int] == k);
                } else if before.contains(k) {
                    let i = choose|i: int| 0 <= i < before.len() && before[i] == k;
                    assert(before[i] < last);
                }
            }
        }
        places
    }
}

/// The protocol of a target is the one that it names, or else the one that its
/// provider names; only where neither names one is it to be probed.
pub proof fn configured_protocol_is_the_named_one(target: TargetView, provider: ProviderView)
    ensures
        wire_api_named(target.wire_api) is Some ==> configured_api(target, provider).name()
            == target.wire_api,
        wire_api_named(target.wire_api) is None && wire_api_named(provider.default_wire_api)
            is Some ==> configured_api(target, provider).name() == provider.default_wire_api,
        wire_api_named(target.wire_api) is None && wire_api_named(provider.default_wire_api)
            is None ==> configured_api(target, provider) == WireApi::Auto,
        snapshot_of(Seq::empty(), target, provider).configured_wire_api == configured_api(
            target,
            provider,
        ),
{
}

/// A request sees a route just where the route is there and enabled, and a candidate
/// may serve. It sees it under its own id and model, with the targets that may
/// serve. A route that is missing or disabled is reported as a model that is not
/// there; a key that shuts all providers out as one that may not.
pub proof fn route_is_seen_where_it_can_serve(
    route: Option<RouteView>,
    downstream_model: Seq<char>,
    candidates: Seq<CandidateView>,
    allowed: Option<Seq<Seq<char>>>,
)
    ensures
        route_snapshot_of(route, downstream_model, candidates, allowed) is Ok <==> {
            &&& route is Some && route->0.enabled
            &&& exists|k: int|
                0 <= k < candidates.len() && (#[trigger] candidates[k]).provider is Some && (
                allowed is Some ==> allowed->0.contains(candidates[k].provider->0.id)) && (
                candidates[k].url_safe || candidates[k].provider->0.skip_ssrf_validation)
        },
        route_snapshot_of(route, downstream_model, candidates, allowed) matches Ok(snapshot) ==> {
            &&& snapshot.downstream_model == route->0.downstream_model
            &&& snapshot.route_id == match route->0.id {
                Some(id) => id,
                None => route->0.downstream_model,
            }
            &&& snapshot.targets == serving_targets(snapshot.route_id, candidates, allowed)
        },
        route_snapshot_of(route, downstream_model, candidates, allowed) matches Err(error) ==> {
            &&& route is None || !route->0.enabled ==> error.kind == ErrorKind::ModelNotFound
                && contains_text(error.message, downstream_model)
            &&& route is Some && route->0.enabled && allowed is Some ==> error.kind
                == ErrorKind::AuthFailed
            &&& route is Some && route->0.enabled && allowed is None ==> error.kind
                == ErrorKind::UpstreamUnavailable
        },
{
    if let Some(found) = route {
        let route_id = effective_route_id(found);
        let places = snapshot_is_of_its_candidates(route_id, candidates, allowed);
        if places.len() > 0 {
            assert(places.contains(places[0]));
            assert(candidates[places[0]].provider is Some);
        }
        assert forall|k: int|
            0 <= k < candidates.len() && (#[trigger] candidates[k]).provider is Some && (allowed
                is Some ==> allowed->0.contains(candidates[k].provider->0.id)) && (
            candidates[k].url_safe || candidates[k].provider->0.skip_ssrf_validation) implies
            places.len() > 0 by {
            assert(places.contains(k));
        }
    }
    let front = "Model '"@;
    if route is None || !route->0.enabled {
        let message = route_snapshot_of(route, downstream_model, candidates, allowed)->Err_0.message;
        assert(message.subrange(
            front.len() as int,
            (front.len() + downstream_model.len()) as int,
        ) =~= downstream_model);
        assert(occurs_at(message, downstream_model, front.len() as int));
    }
}

/// The key of a bearer header is what follows the word, and no other header has one.
pub proof fn bearer_key_follows_the_word(value: Seq<char>, key: Seq<char>)
    ensures
        bearer_of("Bearer "@ + key) == Some(key),
        bearer_of(value) == Some(key) <==> value == "Bearer "@ + key,
{
    let word = "Bearer "@;
    let whole = word + key;
    assert(whole.subrange(0, word.len() as int) =~= word);
    assert(whole.skip(word.len() as int) =~= key);
    if bearer_of(value) == Some(key) {
        assert(value =~= value.subrange(0, word.len() as int) + value.skip(word.len() as int));
    }
}

/// The client's own key goes to an upstream just where the provider passes it on
/// and the client sent one as a bearer; in any other case it is the provider's. Only
/// a managed provider is refused for want of a key.
pub proof fn clients_key_is_passed_on_where_asked(
    target: SnapshotView,
    authorization: Option<Seq<char>>,
    key: Seq<char>,
)
    ensures
        target.provider_auth_mode == "pass_authorization"@ ==> upstream_key_of(
            target,
            Some("Bearer "@ + key),
        ) == Some(key),
        target.provider_auth_mode != "pass_authorization"@ ==> upstream_key_of(
            target,
            authorization,
        ) == target.provider_api_key,
        (authorization is None || bearer_of(authorization->0) is None) ==> upstream_key_of(
            target,
            authorization,
        ) == target.provider_api_key,
        checked_key_of(target, authorization) is Err <==> target.provider_auth_mode == "managed"@
            && target.provider_api_key is None,
        checked_key_of(target, authorization) matches Ok(sent) ==> sent == upstream_key_of(
            target,
            authorization,
        ),
{
    bearer_key_follows_the_word("Bearer "@ + key, key);
    reveal_strlit("managed");
    reveal_strlit("pass_authorization");
    assert("managed"@.len() != "pass_authorization"@.len());
}

} // verus!
