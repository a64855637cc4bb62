//! Taking over a whole configuration at once.

use crate::admin::validate::{address_rejected, block_reason, rejected};
use crate::config::{ProviderConfig, ProviderView, RouteConfig, RouteView};
use crate::error::{error_of, outcome, Error, ErrorKind, ErrorView};
use crate::json::{
    add_member, lemma_holds, no_members, object_of, text_value, Json, JsonView,
};
use crate::relay::target::UrlVerdict;
use crate::text::{join4, join5, same};
use vstd::prelude::*;

verus! {

/// Whether a provider has this id.
pub open spec fn names_provider(providers: Seq<ProviderView>, id: Seq<char>) -> bool {
    exists|i: int| 0 <= i < providers.len() && (#[trigger] providers[i]).id == id
}

/// Whether a route before the one at `n` has this model.
pub open spec fn model_taken(routes: Seq<RouteView>, n: int, model: Seq<char>) -> bool {
    exists|i: int| 0 <= i < n && (#[trigger] routes[i]).downstream_model == model
}

/// Whether a provider before the one at `n` has this id.
pub open spec fn provider_taken(providers: Seq<ProviderView>, n: int, id: Seq<char>) -> bool {
    exists|i: int| 0 <= i < n && (#[trigger] providers[i]).id == id
}

/// The refusal of a configuration.
pub open spec fn import_rejected(what: Seq<char>) -> ErrorView {
    rejected("Invalid config import payload: "@ + what)
}

/// Whether the providers from `from` on have ids of their own.
pub open spec fn providers_distinct(
    providers: Seq<ProviderView>,
    from: int,
) -> Result<(), ErrorView>
    decreases providers.len() - from,
{
    if from < 0 || from >= providers.len() {
        Ok(())
    } else if provider_taken(providers, from, providers[from].id) {
        Err(import_rejected("duplicate provider id '"@ + providers[from].id + "'"@))
    } else {
        providers_distinct(providers, from + 1)
    }
}

/// Whether the targets of a route from `from` on are of providers that the
/// configuration has.
pub open spec fn targets_known(
    providers: Seq<ProviderView>,
    route: RouteView,
    from: int,
) -> Result<(), ErrorView>
    decreases route.targets.len() - from,
{
    if from < 0 || from >= route.targets.len() {
        Ok(())
    } else if !names_provider(providers, route.targets[from].provider) {
        Err(
            import_rejected(
                "route '"@ + route.downstream_model + "' references unknown provider '"@
                    + route.targets[from].provider + "'"@,
            ),
        )
    } else {
        targets_known(providers, route, from + 1)
    }
}

/// Whether the routes from `from` on have models of their own, and targets of
/// known providers.
pub open spec fn routes_sound(
    providers: Seq<ProviderView>,
    routes: Seq<RouteView>,
    from: int,
) -> Result<(), ErrorView>
    decreases routes.len() - from,
{
    if from < 0 || from >= routes.len() {
        Ok(())
    } else if model_taken(routes, from, routes[from].downstream_model) {
        Err(
            import_rejected(
                "duplicate downstream model '"@ + routes[from].downstream_model + "'"@,
            ),
        )
    } else {
        match targets_known(providers, routes[from], 0) {
            Err(error) => Err(error),
            Ok(_) => routes_sound(providers, routes, from + 1),
        }
    }
}

/// Whether a configuration can be taken over.
pub open spec fn import_checked(
    providers: Seq<ProviderView>,
    routes: Seq<RouteView>,
) -> Result<(), ErrorView> {
    match providers_distinct(providers, 0) {
        Err(error) => Err(error),
        Ok(_) => routes_sound(providers, routes, 0),
    }
}

fn reject_import(front: &str, name: &str) -> (r: Error)
    ensures
        r.deep_view() == rejected(
            "Invalid config import payload: "@ + front@ + name@ + "'"@,
        ),
{
    Error {
        kind: ErrorKind::RequestInvalid,
        message: join4("Invalid config import payload: ", front, name, "'"),
    }
}

fn has_provider(providers: &Vec<ProviderConfig>, n: usize, id: &str) -> (r: bool)
    requires
        n <= providers.len(),
    ensures
        r == provider_taken(providers.deep_view(), n as int, id@),
{
    let ghost views = providers.deep_view();
    let mut i: usize = 0;
    while i < n
        invariant
            i <= n <= providers.len(),
            views == providers.deep_view(),
            forall|j: int| 0 <= j < i ==> (#[trigger] views[j]).id != id@,
        decreases n - i,
    {
        assert(views[i as int] == providers@[i as int].deep_view());
        if same(providers[i].id.as_str(), id) {
            return true;
        }
        i = i + 1;
    }
    false
}

fn has_model(routes: &Vec<RouteConfig>, n: usize, model: &str) -> (r: bool)
    requires
        n <= routes.len(),
    ensures
        r == model_taken(routes.deep_view(), n as int, model@),
{
    let ghost views = routes.deep_view();
    let mut i: usize = 0;
    while i < n
        invariant
            i <= n <= routes.len(),
            views == routes.deep_view(),
            forall|j: int| 0 <= j < i ==> (#[trigger] views[j]).downstream_model != model@,
        decreases n - i,
    {
        assert(views[i as int] == routes@[i as int].deep_view());
        if same(routes[i].downstream_model.as_str(), model) {
            return true;
        }
        i = i + 1;
    }
    false
}

fn check_providers(providers: &Vec<ProviderConfig>) -> (r: Result<(), Error>)
    ensures
        outcome(r) == providers_distinct(providers.deep_view(), 0),
{
    let ghost views = providers.deep_view();
    let mut i: usize = 0;
    while i < providers.len()
        invariant
            i <= providers.len(),
            views == providers.deep_view(),
            providers_distinct(views, 0) == providers_distinct(views, i as int),
        decreases providers.len() - i,
    {
        assert(views[i as int] == providers@[i as int].deep_view());
        let id = providers[i].id.as_str();
        if has_provider(providers, i, id) {
            let r = reject_import("duplicate provider id '", id);
            assert("Invalid config import payload: "@ + "duplicate provider id '"@ + id@ + "'"@
                =~= "Invalid config import payload: "@ + ("duplicate provider id '"@ + id@
                + "'"@));
            return Err(r);
        }
        i = i + 1;
    }
    Ok(())
}

fn check_route_targets(providers: &Vec<ProviderConfig>, route: &RouteConfig) -> (r: Result<
    (),
    Error,
>)
    ensures
        outcome(r) == targets_known(providers.deep_view(), route.deep_view(), 0),
{
    let ghost views = providers.deep_view();
    let ghost shown = route.deep_view();
    let mut i: usize = 0;
    while i < route.targets.len()
        invariant
            i <= route.targets.len(),
            views == providers.deep_view(),
            shown == route.deep_view(),
            targets_known(views, shown, 0) == targets_known(views, shown, i as int),
        decreases route.targets.len() - i,
    {
        assert(shown.targets[i as int] == route.targets@[i as int].deep_view());
        let provider = route.targets[i].provider.as_str();
        if !has_provider(providers, providers.len(), provider) {
            let what = join5(
                "route '",
                route.downstream_model.as_str(),
                "' references unknown provider '",
                provider,
                "'",
            );
            return Err(
                Error::about(
                    ErrorKind::RequestInvalid,
                    "Invalid config import payload: ",
                    what.as_str(),
                ),
            );
        }
        i = i + 1;
    }
    Ok(())
}

fn check_routes(providers: &Vec<ProviderConfig>, routes: &Vec<RouteConfig>) -> (r: Result<
    (),
    Error,
>)
    ensures
        outcome(r) == routes_sound(providers.deep_view(), routes.deep_view(), 0),
{
    let ghost views = providers.deep_view();
    let ghost shown = routes.deep_view();
    let mut i: usize = 0;
    while i < routes.len()
        invariant
            i <= routes.len(),
            views == providers.deep_view(),
            shown == routes.deep_view(),
            routes_sound(views, shown, 0) == routes_sound(views, shown, i as int),
        decreases routes.len() - i,
    {
        assert(shown[i as int] == routes@[i as int].deep_view());
        let model = routes[i].downstream_model.as_str();
        if has_model(routes, i, model) {
            let r = reject_import("duplicate downstream model '", model);
            assert("Invalid config import payload: "@ + "duplicate downstream model '"@ + model@
                + "'"@ =~= "Invalid config import payload: "@ + ("duplicate downstream model '"@
                + model@ + "'"@));
            return Err(r);
        }
        if let Err(error) = check_route_targets(providers, &routes[i]) {
            return Err(error);
        }
        i = i + 1;
    }
    Ok(())
}

/// Checks that a configuration can be taken over: its providers have ids of
/// their own, its routes models of their own, and every target is of one of its
/// providers.
pub fn validate_import_config(providers: &Vec<ProviderConfig>, routes: &Vec<RouteConfig>) -> (r:
    Result<(), Error>)
    ensures
        outcome(r) == import_checked(providers.deep_view(), routes.deep_view()),
{
    if let Err(error) = check_providers(providers) {
        return Err(error);
    }
    check_routes(providers, routes)
}

/// What a configuration that cannot be read is reported as.
pub fn import_unreadable(detail: &str) -> (r: Error)
    ensures
        r.deep_view() == import_rejected(detail@),
{
    Error::about(ErrorKind::RequestInvalid, "Invalid config import payload: ", detail)
}

/// Why addresses are blocked, where they are.
pub open spec fn block_reasons(verdicts: Seq<UrlVerdict>) -> Seq<Option<Seq<char>>> {
    verdicts.map_values(|verdict: UrlVerdict| block_reason(verdict))
}

/// Whether the addresses of the providers from `from` on are safe, or exempt from
/// the check.
pub open spec fn addresses_checked(
    providers: Seq<ProviderView>,
    blocked: Seq<Option<Seq<char>>>,
    from: int,
) -> Result<(), ErrorView>
    decreases providers.len() - from,
{
    if from < 0 || from >= providers.len() {
        Ok(())
    } else {
        match blocked[from] {
            Some(reason) if !providers[from].skip_ssrf_validation => Err(
                address_rejected(providers[from].id, reason),
            ),
            _ => addresses_checked(providers, blocked, from + 1),
        }
    }
}

/// Checks the addresses of the providers of a configuration. `verdicts` are those
/// on them, in their order.
pub fn validate_import_provider_urls(
    providers: &Vec<ProviderConfig>,
    verdicts: &Vec<UrlVerdict>,
) -> (r: Result<(), Error>)
    requires
        verdicts.len() >= providers.len(),
    ensures
        outcome(r) == addresses_checked(providers.deep_view(), block_reasons(verdicts@), 0),
{
    let ghost views = providers.deep_view();
    let ghost reasons = block_reasons(verdicts@);
    let mut i: usize = 0;
    while i < providers.len()
        invariant
            i <= providers.len(),
            verdicts.len() >= providers.len(),
            views == providers.deep_view(),
            reasons == block_reasons(verdicts@),
            addresses_checked(views, reasons, 0) == addresses_checked(views, reasons, i as int),
        decreases providers.len() - i,
    {
        assert(views[i as int] == providers@[i as int].deep_view());
        assert(reasons[i as int] == block_reason(verdicts@[i as int]));
        if !providers[i].skip_ssrf_validation {
            if let UrlVerdict::Blocked { reason } = &verdicts[i] {
                return Err(
                    Error {
                        kind: ErrorKind::RequestInvalid,
                        message: join4(
                            "Provider '",
                            providers[i].id.as_str(),
                            "' base_url rejected by SSRF policy: ",
                            reason.as_str(),
                        ),
                    },
                );
            }
        }
        i = i + 1;
    }
    Ok(())
}

/// How many rows were written for a configuration.
#[derive(Debug, Clone, Copy, PartialEq, Eq, Structural)]
pub struct AppliedCounts {
    pub providers: u64,
    pub routes: u64,
    pub targets: u64,
}

/// How many targets routes have in all, up to the largest number there is.
pub open spec fn target_total(routes: Seq<RouteView>) -> nat
    decreases routes.len(),
{
    if routes.len() == 0 {
        0
    } else {
        target_total(routes.drop_last()) + routes.last().targets.len()
    }
}

fn count_targets(routes: &Vec<RouteConfig>) -> (r: u64)
    ensures
        r == capped(target_total(routes.deep_view())),
{
    let ghost views = routes.deep_view();
    let mut total: u64 = 0;
    let mut i: usize = 0;
    assert(views.take(0) =~= Seq::empty());
    while i < routes.len()
        invariant
            i <= routes.len(),
            views == routes.deep_view(),
            total == capped(target_total(views.take(i as int))),
        decreases routes.len() - i,
    {
        assert(views.take(i + 1).drop_last() =~= views.take(i as int));
        assert(views.take(i + 1).last() == routes@[i as int].deep_view());
        assert(routes@[i as int].deep_view().targets.len() == routes@[i as int].targets@.len());
        let more: u64 = routes[i].targets.len() as u64;
        total = total.saturating_add(more);
        i = i + 1;
    }
    assert(views.take(views.len() as int) =~= views);
    total
}

/// A count, up to the largest number there is.
pub open spec fn capped(n: nat) -> u64 {
    if n > u64::MAX {
        u64::MAX
    } else {
        n as u64
    }
}

/// The answer to the import of a configuration.
pub open spec fn import_answer_of(
    providers: Seq<ProviderView>,
    routes: Seq<RouteView>,
    applied: AppliedCounts,
) -> JsonView {
    JsonView::Object(
        seq![
            (
                "applied"@,
                JsonView::Object(
                    seq![
                        ("providers"@, JsonView::Uint(applied.providers)),
                        ("routes"@, JsonView::Uint(applied.routes)),
                        ("targets"@, JsonView::Uint(applied.targets)),
                    ],
                ),
            ),
            ("providers_count"@, JsonView::Uint(providers.len() as u64)),
            ("routes_count"@, JsonView::Uint(routes.len() as u64)),
            ("status"@, JsonView::Text("imported"@)),
            ("targets_count"@, JsonView::Uint(capped(target_total(routes)))),
        ],
    )
}

fn applied_value(applied: AppliedCounts) -> (r: Json)
    ensures
        r@ == JsonView::Object(
            seq![
                ("providers"@, JsonView::Uint(applied.providers)),
                ("routes"@, JsonView::Uint(applied.routes)),
                ("targets"@, JsonView::Uint(applied.targets)),
            ],
        ),
{
    let mut members = no_members();
    add_member(&mut members, "providers", Json::Uint(applied.providers));
    add_member(&mut members, "routes", Json::Uint(applied.routes));
    add_member(&mut members, "targets", Json::Uint(applied.targets));
    let r = object_of(members);
    assert(r@->Object_0 =~= seq![
        ("providers"@, JsonView::Uint(applied.providers)),
        ("routes"@, JsonView::Uint(applied.routes)),
        ("targets"@, JsonView::Uint(applied.targets)),
    ]);
    r
}

/// The answer to the import of a configuration, given what was written.
pub fn import_answer(
    providers: &Vec<ProviderConfig>,
    routes: &Vec<RouteConfig>,
    applied: &Result<AppliedCounts, String>,
) -> (r: Result<Json, Error>)
    ensures
        match *applied {
            Ok(counts) => r matches Ok(answer) && answer@ == import_answer_of(
                providers.deep_view(),
                routes.deep_view(),
                counts,
            ),
            Err(detail) => r matches Err(error) && error.deep_view() == error_of(
                ErrorKind::InternalError,
                "Failed to apply imported config: "@ + detail@,
            ),
        },
{
    let counts: AppliedCounts = match applied {
        Ok(counts) => *counts,
        Err(detail) => {
            return Err(
                Error::about(
                    ErrorKind::InternalError,
                    "Failed to apply imported config: ",
                    detail.as_str(),
                ),
            );
        },
    };
    assert(providers.deep_view().len() == providers@.len());
    assert(routes.deep_view().len() == routes@.len());
    let mut members = no_members();
    add_member(&mut members, "applied", applied_value(counts));
    add_member(&mut members, "providers_count", Json::Uint(providers.len() as u64));
    add_member(&mut members, "routes_count", Json::Uint(routes.len() as u64));
    add_member(&mut members, "status", text_value("imported"));
    add_member(&mut members, "targets_count", Json::Uint(count_targets(routes)));
    let answer = object_of(members);
    assert(answer@->Object_0 =~= import_answer_of(
        providers.deep_view(),
        routes.deep_view(),
        counts,
    )->Object_0);
    Ok(answer)
}

/// A configuration that is taken over has no two providers of one id, no two
/// routes of one model, and no target of a provider that it does not have.
pub proof fn imported_config_is_sound(providers: Seq<ProviderView>, routes: Seq<RouteView>)
    requires
        import_checked(providers, routes) is Ok,
    ensures
        forall|i: int, j: int|
            0 <= i < j < providers.len() ==> (#[trigger] providers[i]).id != (
            #[trigger] providers[j]).id,
        forall|i: int, j: int|
            0 <= i < j < routes.len() ==> (#[trigger] routes[i]).downstream_model != (
            #[trigger] routes[j]).downstream_model,
        forall|i: int, k: int|
            0 <= i < routes.len() && 0 <= k < routes[i].targets.len() ==> names_provider(
                providers,
                (#[trigger] routes[i].targets[k]).provider,
            ),
{
    assert forall|i: int, j: int| 0 <= i < j < providers.len() implies (#[trigger]
    providers[i]).id != (#[trigger] providers[j]).id by {
        lemma_provider_own(providers, 0, j);
    }
    assert forall|i: int, j: int| 0 <= i < j < routes.len() implies (#[trigger]
    routes[i]).downstream_model != (#[trigger] routes[j]).downstream_model by {
        lemma_route_sound(providers, routes, 0, j);
    }
    assert forall|i: int, k: int|
        0 <= i < routes.len() && 0 <= k < routes[i].targets.len() implies names_provider(
        providers,
        (#[trigger] routes[i].targets[k]).provider,
    ) by {
        lemma_route_sound(providers, routes, 0, i);
        lemma_target_known(providers, routes[i], 0, k);
    }
}

proof fn lemma_provider_own(providers: Seq<ProviderView>, from: int, j: int)
    requires
        providers_distinct(providers, from) is Ok,
        0 <= from <= j < providers.len(),
    ensures
        !provider_taken(providers, j, providers[j].id),
    decreases j - from,
{
    if from < j {
        lemma_provider_own(providers, from + 1, j);
    }
}

proof fn lemma_route_sound(
    providers: Seq<ProviderView>,
    routes: Seq<RouteView>,
    from: int,
    j: int,
)
    requires
        routes_sound(providers, routes, from) is Ok,
        0 <= from <= j < routes.len(),
    ensures
        !model_taken(routes, j, routes[j].downstream_model),
        targets_known(providers, routes[j], 0) is Ok,
    decreases j - from,
{
    if from < j {
        lemma_route_sound(providers, routes, from + 1, j);
    }
}

proof fn lemma_target_known(providers: Seq<ProviderView>, route: RouteView, from: int, k: int)
    requires
        targets_known(providers, route, from) is Ok,
        0 <= from <= k < route.targets.len(),
    ensures
        names_provider(providers, route.targets[k].provider),
    decreases k - from,
{
    if from < k {
        lemma_target_known(providers, route, from + 1, k);
    }
}

/// A configuration is taken over where all providers have ids of their own, all routes
/// have models of their own, and each target is of one of the providers.
pub proof fn sound_config_is_imported(providers: Seq<ProviderView>, routes: Seq<RouteView>)
    requires
        forall|i: int, j: int|
            0 <= i < j < providers.len() ==> (#[trigger] providers[i]).id != (
            #[trigger] providers[j]).id,
        forall|i: int, j: int|
            0 <= i < j < routes.len() ==> (#[trigger] routes[i]).downstream_model != (
            #[trigger] routes[j]).downstream_model,
        forall|i: int, k: int|
            0 <= i < routes.len() && 0 <= k < routes[i].targets.len() ==> exists|p: int|
                0 <= p < providers.len() && (#[trigger] providers[p]).id == (
                #[trigger] routes[i].targets[k]).provider,
    ensures
        import_checked(providers, routes) is Ok,
{
    lemma_all_distinct(providers, 0);
    assert forall|i: int, k: int|
        0 <= i < routes.len() && 0 <= k < routes[i].targets.len() implies names_provider(
        providers,
        (#[trigger] routes[i].targets[k]).provider,
    ) by {}
    lemma_all_sound(providers, routes, 0);
}

proof fn lemma_all_distinct(providers: Seq<ProviderView>, from: int)
    requires
        0 <= from,
        forall|i: int, j: int|
            0 <= i < j < providers.len() ==> (#[trigger] providers[i]).id != (
            #[trigger] providers[j]).id,
    ensures
        providers_distinct(providers, from) is Ok,
    decreases providers.len() - from,
{
    if from < providers.len() {
        lemma_all_distinct(providers, from + 1);
    }
}

proof fn lemma_all_known(providers: Seq<ProviderView>, route: RouteView, from: int)
    requires
        0 <= from,
        forall|k: int|
            0 <= k < route.targets.len() ==> names_provider(
                providers,
                (#[trigger] route.targets[k]).provider,
            ),
    ensures
        targets_known(providers, route, from) is Ok,
    decreases route.targets.len() - from,
{
    if from < route.targets.len() {
        lemma_all_known(providers, route, from + 1);
    }
}

proof fn lemma_all_sound(providers: Seq<ProviderView>, routes: Seq<RouteView>, from: int)
    requires
        0 <= from,
        forall|i: int, j: int|
            0 <= i < j < routes.len() ==> (#[trigger] routes[i]).downstream_model != (
            #[trigger] routes[j]).downstream_model,
        forall|i: int, k: int|
            0 <= i < routes.len() && 0 <= k < routes[i].targets.len() ==> names_provider(
                providers,
                (#[trigger] routes[i].targets[k]).provider,
            ),
    ensures
        routes_sound(providers, routes, from) is Ok,
    decreases routes.len() - from,
{
    if from < routes.len() {
        lemma_all_known(providers, routes[from], 0);
        lemma_all_sound(providers, routes, from + 1);
    }
}

/// The addresses of a configuration pass just where each of them is safe or its
/// provider is exempt; the refusal is that of the first provider for which neither
/// holds.
pub proof fn imported_addresses_are_safe_or_exempt(
    providers: Seq<ProviderView>,
    blocked: Seq<Option<Seq<char>>>,
)
    ensures
        addresses_checked(providers, blocked, 0) is Ok <==> forall|i: int|
            0 <= i < providers.len() ==> blocked[i] is None || (
            #[trigger] providers[i]).skip_ssrf_validation,
        addresses_checked(providers, blocked, 0) matches Err(error) ==> exists|i: int|
            0 <= i < providers.len() && blocked[i] is Some && !(
            #[trigger] providers[i]).skip_ssrf_validation && error == address_rejected(
                providers[i].id,
                blocked[i]->0,
            ),
{
    lemma_addresses(providers, blocked, 0);
}

proof fn lemma_addresses(
    providers: Seq<ProviderView>,
    blocked: Seq<Option<Seq<char>>>,
    from: int,
)
    requires
        0 <= from,
    ensures
        addresses_checked(providers, blocked, from) is Ok <==> forall|i: int|
            from <= i < providers.len() ==> blocked[i] is None || (
            #[trigger] providers[i]).skip_ssrf_validation,
        addresses_checked(providers, blocked, from) matches Err(error) ==> exists|i: int|
            from <= i < providers.len() && blocked[i] is Some && !(
            #[trigger] providers[i]).skip_ssrf_validation && error == address_rejected(
                providers[i].id,
                blocked[i]->0,
            ),
    decreases providers.len() - from,
{
    if from < providers.len() {
        lemma_addresses(providers, blocked, from + 1);
        if blocked[from] is Some && !providers[from].skip_ssrf_validation {
            assert(!(blocked[from] is None || providers[from].skip_ssrf_validation));
        }
    }
}

/// Targets are counted over all routes, and each verdict on an address by itself.
pub proof fn targets_add_up(routes: Seq<RouteView>, route: RouteView, verdicts: Seq<UrlVerdict>)
    ensures
        target_total(routes.push(route)) == target_total(routes) + route.targets.len(),
        target_total(Seq::empty()) == 0,
        block_reasons(verdicts).len() == verdicts.len(),
        forall|i: int|
            0 <= i < verdicts.len() ==> #[trigger] block_reasons(verdicts)[i] == block_reason(
                verdicts[i],
            ),
        target_total(routes) <= u64::MAX ==> capped(target_total(routes)) == target_total(routes),
{
    assert(routes.push(route).drop_last() =~= routes);
}

/// The answer to an import tells how much was sent and how much was applied, each under
/// its own name.
pub proof fn import_answer_tells_the_counts(
    providers: Seq<ProviderView>,
    routes: Seq<RouteView>,
    applied: AppliedCounts,
)
    requires
        providers.len() <= u64::MAX && routes.len() <= u64::MAX,
    ensures
        ({
            let answer = import_answer_of(providers, routes, applied);
            &&& answer.holds("status"@, JsonView::Text("imported"@))
            &&& answer.holds("providers_count"@, JsonView::Uint(providers.len() as u64))
            &&& answer.holds("routes_count"@, JsonView::Uint(routes.len() as u64))
            &&& answer.holds("targets_count"@, JsonView::Uint(capped(target_total(routes))))
            &&& exists|told: JsonView|
                {
                    &&& #[trigger] answer.holds("applied"@, told)
                    &&& told.holds("providers"@, JsonView::Uint(applied.providers))
                    &&& told.holds("routes"@, JsonView::Uint(applied.routes))
                    &&& told.holds("targets"@, JsonView::Uint(applied.targets))
                }
        }),
{
    let answer = import_answer_of(providers, routes, applied);
    lemma_holds(answer, 0);
    lemma_holds(answer, 1);
    lemma_holds(answer, 2);
    lemma_holds(answer, 3);
    lemma_holds(answer, 4);
    let told = answer->Object_0[0].1;
    lemma_holds(told, 0);
    lemma_holds(told, 1);
    lemma_holds(told, 2);
    assert(answer.holds("applied"@, told));
}

} // verus!
