//! Model catalog endpoint.

use crate::json::JsonView;
use crate::relay::continuation::{load_content, present, stored_content};
use crate::store::{RouteRecord, RouteRecordView, TargetRecord, TargetRecordView};
use vstd::prelude::*;

verus! {

/// Model information.
#[derive(Debug)]
pub struct ModelInfo {
    pub id: String,
    pub object: String,
    pub created: i64,
    pub owned_by: String,
    pub context_window: Option<u64>,
    pub max_output_tokens: Option<u64>,
}

/// The mathematical value of a [`ModelInfo`].
#[verifier::ext_equal]
pub struct ModelInfoView {
    pub id: Seq<char>,
    pub object: Seq<char>,
    pub created: i64,
    pub owned_by: Seq<char>,
    pub context_window: Option<u64>,
    pub max_output_tokens: Option<u64>,
}

impl DeepView for ModelInfo {
    type V = ModelInfoView;

    open spec fn deep_view(&self) -> ModelInfoView {
        ModelInfoView {
            id: self.id@,
            object: self.object@,
            created: self.created,
            owned_by: self.owned_by@,
            context_window: self.context_window,
            max_output_tokens: self.max_output_tokens,
        }
    }
}

/// Models list response.
#[derive(Debug)]
pub struct ModelsResponse {
    pub object: String,
    pub data: Vec<ModelInfo>,
}

/// The smaller of two limits; one that is not set limits nothing.
pub open spec fn tighter(a: Option<u64>, b: Option<u64>) -> Option<u64> {
    match (a, b) {
        (Some(x), Some(y)) => Some(
            if x <= y {
                x
            } else {
                y
            },
        ),
        (None, limit) => limit,
        (limit, None) => limit,
    }
}

fn tighter_of(a: Option<u64>, b: Option<u64>) -> (r: Option<u64>)
    ensures
        r == tighter(a, b),
{
    match (a, b) {
        (Some(x), Some(y)) => if x <= y {
            Some(x)
        } else {
            Some(y)
        },
        (None, limit) => limit,
        (limit, None) => limit,
    }
}

/// A limit that the stored settings of a target hold under a name.
pub open spec fn target_limit(target: TargetRecordView, name: Seq<char>) -> Option<u64> {
    stored_content(target.config_json).get_u64(name)
}

/// The tightest limit that enabled targets hold under a name.
pub open spec fn tightest(targets: Seq<TargetRecordView>, name: Seq<char>) -> Option<u64>
    decreases targets.len(),
{
    if targets.len() == 0 {
        None
    } else {
        let rest = tightest(targets.drop_last(), name);
        if targets.last().enabled == 0 {
            rest
        } else {
            tighter(rest, target_limit(targets.last(), name))
        }
    }
}

/// What is told of a route: its model, with the tightest limits of its enabled
/// targets.
pub open spec fn model_of(route: RouteRecordView, targets: Seq<TargetRecordView>) -> ModelInfoView {
    ModelInfoView {
        id: route.downstream_model,
        object: "model"@,
        created: 1700000000,
        owned_by: "modelwire"@,
        context_window: tightest(targets, "context_window_tokens"@),
        max_output_tokens: tightest(targets, "max_output_tokens"@),
    }
}

/// A route with its targets.
#[derive(Debug)]
pub struct ListedRoute {
    pub route: RouteRecord,
    pub targets: Vec<TargetRecord>,
}

impl DeepView for ListedRoute {
    type V = (RouteRecordView, Seq<TargetRecordView>);

    open spec fn deep_view(&self) -> (RouteRecordView, Seq<TargetRecordView>) {
        (self.route.deep_view(), self.targets.deep_view())
    }
}

/// What is told of a route; nothing of one that is not enabled.
pub open spec fn listed(entry: (RouteRecordView, Seq<TargetRecordView>)) -> Option<ModelInfoView> {
    if entry.0.enabled == 0 {
        None
    } else {
        Some(model_of(entry.0, entry.1))
    }
}

/// What is told of routes.
pub open spec fn listed_models(
    routes: Seq<(RouteRecordView, Seq<TargetRecordView>)>,
) -> Seq<ModelInfoView> {
    present(
        routes.map_values(
            |entry: (RouteRecordView, Seq<TargetRecordView>)| listed(entry),
        ),
    )
}

fn describe_route(entry: &ListedRoute) -> (r: ModelInfo)
    ensures
        r.deep_view() == model_of(entry.deep_view().0, entry.deep_view().1),
{
    let targets = &entry.targets;
    let ghost views = targets.deep_view();
    let mut context_window: Option<u64> = None;
    let mut max_output_tokens: Option<u64> = None;
    let mut i: usize = 0;
    assert(views.take(0) =~= Seq::empty());
    while i < targets.len()
        invariant
            i <= targets.len(),
            views == targets.deep_view(),
            context_window == tightest(views.take(i as int), "context_window_tokens"@),
            max_output_tokens == tightest(views.take(i as int), "max_output_tokens"@),
        decreases targets.len() - i,
    {
        assert(views.take(i + 1).drop_last() =~= views.take(i as int));
        assert(views.take(i + 1).last() == targets@[i as int].deep_view());
        if targets[i].enabled != 0 {
            let settings = load_content(targets[i].config_json.as_str());
            context_window = tighter_of(
                context_window,
                settings.get_u64("context_window_tokens"),
            );
            max_output_tokens = tighter_of(
                max_output_tokens,
                settings.get_u64("max_output_tokens"),
            );
        }
        i = i + 1;
    }
    assert(views.take(views.len() as int) =~= views);
    ModelInfo {
        id: entry.route.downstream_model.clone(),
        object: "model".to_owned(),
        created: 1700000000,
        owned_by: "modelwire".to_owned(),
        context_window,
        max_output_tokens,
    }
}

/// The models that can be asked for.
pub fn list_models(routes: &Vec<ListedRoute>) -> (r: ModelsResponse)
    ensures
        r.object@ == "list"@,
        r.data.deep_view() == listed_models(routes.deep_view()),
{
    let ghost wanted = routes.deep_view().map_values(
        |entry: (RouteRecordView, Seq<TargetRecordView>)| listed(entry),
    );
    let mut data: Vec<ModelInfo> = Vec::new();
    let mut i: usize = 0;
    assert(wanted.take(0) =~= Seq::empty());
    assert(data.deep_view() =~= Seq::empty());
    while i < routes.len()
        invariant
            i <= routes.len(),
            wanted == routes.deep_view().map_values(
                |entry: (RouteRecordView, Seq<TargetRecordView>)| listed(entry),
            ),
            data.deep_view() == present(wanted.take(i as int)),
        decreases routes.len() - i,
    {
        assert(wanted.take(i + 1).drop_last() =~= wanted.take(i as int));
        assert(wanted[i as int] == listed(routes@[i as int].deep_view()));
        if routes[i].route.enabled != 0 {
            let ghost before = data.deep_view();
            let model = describe_route(&routes[i]);
            let ghost shown = model.deep_view();
            data.push(model);
            assert(data.deep_view() =~= before.push(shown));
        }
        i = i + 1;
    }
    assert(wanted.take(wanted.len() as int) =~= wanted);
    ModelsResponse { object: "list".to_owned(), data }
}

/// The limits that clients are told are conservative: no enabled target of the
/// route has a tighter one, and it is one of theirs. Where none of them has a
/// limit, none is told.
pub proof fn told_limits_are_conservative(targets: Seq<TargetRecordView>, name: Seq<char>)
    ensures
        match tightest(targets, name) {
            Some(limit) => {
                &&& forall|i: int|
                    0 <= i < targets.len() && (#[trigger] targets[i]).enabled != 0 ==> (
                    target_limit(targets[i], name) matches Some(own) ==> limit <= own)
                &&& exists|i: int|
                    0 <= i < targets.len() && (#[trigger] targets[i]).enabled != 0
                        && target_limit(targets[i], name) == Some(limit)
            },
            None => forall|i: int|
                0 <= i < targets.len() && (#[trigger] targets[i]).enabled != 0 ==> target_limit(
                    targets[i],
                    name,
                ) is None,
        },
    decreases targets.len(),
{
    if targets.len() > 0 {
        let rest = targets.drop_last();
        told_limits_are_conservative(rest, name);
        assert forall|i: int| 0 <= i < rest.len() implies rest[i] == #[trigger] targets[i] by {}
        let last = targets.len() - 1;
        assert(targets[last] == targets.last());
        if let Some(limit) = tightest(rest, name) {
            let i = choose|i: int|
                0 <= i < rest.len() && (#[trigger] rest[i]).enabled != 0 && target_limit(
                    rest[i],
                    name,
                ) == Some(limit);
            assert(targets[i].enabled != 0 && target_limit(targets[i], name) == Some(limit));
        }
        assert forall|i: int|
            0 <= i < targets.len() && (#[trigger] targets[i]).enabled != 0 && i < last implies
            rest[i].enabled != 0 by {}
    }
}

/// Of two limits the smaller holds, and one that is not set holds nothing back.
pub proof fn tighter_limit_holds(a: Option<u64>, b: Option<u64>)
    ensures
        tighter(a, b) is None <==> a is None && b is None,
        tighter(a, b) matches Some(limit) ==> {
            &&& a matches Some(x) ==> limit <= x
            &&& b matches Some(y) ==> limit <= y
            &&& a == Some(limit) || b == Some(limit)
        },
{
}

/// A limit of a target is the number that its settings hold under that name.
pub proof fn limit_is_read_from_the_settings(target: TargetRecordView, name: Seq<char>)
    ensures
        target_limit(target, name) matches Some(limit) ==> stored_content(target.config_json).get(
            name,
        ) == Some(JsonView::Uint(limit)),
        stored_content(target.config_json).get(name) matches Some(JsonView::Uint(limit))
            ==> target_limit(target, name) == Some(limit),
{
}

/// A model is told under the name that clients ask for, with its own window and its own
/// limit on output, and under the relay's name.
pub proof fn model_is_told_under_its_name(route: RouteRecordView, targets: Seq<TargetRecordView>)
    ensures
        ({
            let model = model_of(route, targets);
            &&& model.id == route.downstream_model && model.object == "model"@
            &&& model.owned_by == "modelwire"@ && model.created == 1_700_000_000
            &&& model.context_window == tightest(targets, "context_window_tokens"@)
            &&& model.max_output_tokens == tightest(targets, "max_output_tokens"@)
        }),
        listed((route, targets)) is None <==> route.enabled == 0,
        listed((route, targets)) matches Some(model) ==> model == model_of(route, targets),
{
}

/// The enabled routes are told, all of them and in order, and no others.
pub proof fn enabled_routes_are_listed(routes: Seq<(RouteRecordView, Seq<TargetRecordView>)>)
    ensures
        listed_models(routes) == routes.filter(
            |entry: (RouteRecordView, Seq<TargetRecordView>)| entry.0.enabled != 0,
        ).map_values(
            |entry: (RouteRecordView, Seq<TargetRecordView>)| model_of(entry.0, entry.1),
        ),
    decreases routes.len(),
{
    reveal(Seq::filter);
    let is_enabled = |entry: (RouteRecordView, Seq<TargetRecordView>)| entry.0.enabled != 0;
    let told = |entry: (RouteRecordView, Seq<TargetRecordView>)| model_of(entry.0, entry.1);
    let each = |entry: (RouteRecordView, Seq<TargetRecordView>)| listed(entry);
    if routes.len() > 0 {
        let front = routes.drop_last();
        enabled_routes_are_listed(front);
        assert(routes.map_values(each).drop_last() =~= front.map_values(each));
        if is_enabled(routes.last()) {
            assert(front.filter(is_enabled).push(routes.last()).map_values(told) =~= front.filter(
                is_enabled,
            ).map_values(told).push(told(routes.last())));
        }
    } else {
        assert(routes.filter(is_enabled).map_values(told) =~= Seq::empty());
    }
}

} // verus!
