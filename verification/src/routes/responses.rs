//! What is checked of a request to create or compact a response before it is
//! relayed.

use crate::config::{RouteConfig, RouteView};
use crate::error::{error_of, Error, ErrorKind, ErrorView};
use crate::json::{parse_json_bytes, parsed_json_bytes, Json, JsonView};
use crate::middleware::auth::{AuthContextView, DownstreamAuthContext};
use crate::relay::request::{flag, flag_field};
use crate::text::{contains_text, is_among, join3, occurs_at};
use vstd::prelude::*;

verus! {

/// What a body that cannot be read is reported as.
pub open spec fn unreadable_body(too_long: bool) -> ErrorView {
    if too_long {
        error_of(
            ErrorKind::RequestTooLarge,
            "Request body exceeds configured max body size"@,
        )
    } else {
        error_of(ErrorKind::RequestInvalid, "Failed to read request body"@)
    }
}

/// What a body that cannot be read is reported as. `too_long` tells whether it
/// was for its length.
pub fn body_read_error_to_response(too_long: bool) -> (r: Error)
    ensures
        r.deep_view() == unreadable_body(too_long),
{
    if too_long {
        Error::new(ErrorKind::RequestTooLarge, "Request body exceeds configured max body size")
    } else {
        Error::new(ErrorKind::RequestInvalid, "Failed to read request body")
    }
}

/// The JSON of a request, given what its body reads as.
pub open spec fn request_json(read: Result<JsonView, Seq<char>>) -> Result<JsonView, ErrorView> {
    match read {
        Ok(value) => Ok(value),
        Err(_) => Err(error_of(ErrorKind::RequestInvalid, "Invalid JSON in request body"@)),
    }
}

/// The JSON of a request.
pub fn parse_request_body(body: &Vec<u8>) -> (r: Result<Json, Error>)
    ensures
        match r {
            Ok(value) => request_json(parsed_json_bytes(body@)) == Ok::<JsonView, ErrorView>(
                value@,
            ),
            Err(error) => request_json(parsed_json_bytes(body@)) == Err::<JsonView, ErrorView>(
                error.deep_view(),
            ),
        },
{
    match parse_json_bytes(body) {
        Ok(value) => Ok(value),
        Err(_) => Err(Error::new(ErrorKind::RequestInvalid, "Invalid JSON in request body")),
    }
}

/// Whether a request asks for a stream of events.
pub fn wants_stream(raw: &Json) -> (r: bool)
    ensures
        r == flag(raw@, "stream"@),
{
    flag_field(raw, "stream")
}

/// Why a key may not ask for a model, where it may not; to be answered under
/// status 403.
pub open spec fn model_denial(
    raw: JsonView,
    context: Option<AuthContextView>,
) -> Option<ErrorView> {
    match (context, raw.get_str("model"@)) {
        (Some(context), Some(model)) => match context.allowed_models {
            Some(allowed) if !allowed.contains(model) => Some(
                error_of(
                    ErrorKind::AuthFailed,
                    "Relay key is not allowed to access model '"@ + model + "'"@,
                ),
            ),
            _ => None,
        },
        _ => None,
    }
}

/// Why a key may not ask for a model, where it may not.
pub fn deny_if_route_not_allowed(
    raw: &Json,
    auth_context: Option<&DownstreamAuthContext>,
) -> (r: Option<Error>)
    ensures
        r.deep_view() == model_denial(raw@, auth_context.deep_view()),
{
    let allowed = match auth_context {
        Some(context) => match &context.allowed_models {
            Some(allowed) => allowed,
            None => {
                return None;
            },
        },
        None => {
            return None;
        },
    };
    let model = match raw.get_str("model") {
        Some(model) => model,
        None => {
            return None;
        },
    };
    if is_among(allowed, model) {
        return None;
    }
    Some(
        Error {
            kind: ErrorKind::AuthFailed,
            message: join3("Relay key is not allowed to access model '", model, "'"),
        },
    )
}

/// Whether one of the targets of a route is of an allowed provider.
pub open spec fn some_target_allowed(route: RouteView, allowed: Seq<Seq<char>>) -> bool {
    exists|i: int|
        0 <= i < route.targets.len() && allowed.contains((#[trigger] route.targets[i]).provider)
}

/// Why a key may reach none of the providers of a model, where it may not; to be
/// answered under status 403.
pub open spec fn provider_denial(
    raw: JsonView,
    context: Option<AuthContextView>,
    route: Option<RouteView>,
) -> Option<ErrorView> {
    match (context, raw.get_str("model"@), route) {
        (Some(context), Some(model), Some(route)) => match context.allowed_providers {
            Some(allowed) if !some_target_allowed(route, allowed) => Some(
                error_of(
                    ErrorKind::AuthFailed,
                    "Relay key is not allowed to access any provider for model '"@ + model + "'"@,
                ),
            ),
            _ => None,
        },
        _ => None,
    }
}

fn any_target_allowed(route: &RouteConfig, allowed: &Vec<String>) -> (r: bool)
    ensures
        r == some_target_allowed(route.deep_view(), allowed.deep_view()),
{
    let ghost targets = route.targets.deep_view();
    let mut i: usize = 0;
    while i < route.targets.len()
        invariant
            i <= route.targets.len(),
            targets == route.targets.deep_view(),
            forall|j: int|
                0 <= j < i ==> !allowed.deep_view().contains((#[trigger] targets[j]).provider),
        decreases route.targets.len() - i,
    {
        assert(targets[i as int] == route.targets@[i as int].deep_view());
        if is_among(allowed, route.targets[i].provider.as_str()) {
            return true;
        }
        i = i + 1;
    }
    false
}

/// Why a key may reach none of the providers of a model, where it may not.
/// `route` is the route of the model, where there is one.
pub fn deny_if_provider_scope_not_satisfiable(
    raw: &Json,
    auth_context: Option<&DownstreamAuthContext>,
    route: Option<&RouteConfig>,
) -> (r: Option<Error>)
    ensures
        r.deep_view() == provider_denial(raw@, auth_context.deep_view(), route.deep_view()),
{
    let allowed = match auth_context {
        Some(context) => match &context.allowed_providers {
            Some(allowed) => allowed,
            None => {
                return None;
            },
        },
        None => {
            return None;
        },
    };
    let model = match raw.get_str("model") {
        Some(model) => model,
        None => {
            return None;
        },
    };
    let route = match route {
        Some(route) => route,
        None => {
            return None;
        },
    };
    if any_target_allowed(route, allowed) {
        return None;
    }
    Some(
        Error {
            kind: ErrorKind::AuthFailed,
            message: join3(
                "Relay key is not allowed to access any provider for model '",
                model,
                "'",
            ),
        },
    )
}

/// A key with a list of models reaches no other model, and one with a list of
/// providers no route without any of them.
pub proof fn keys_stay_within_their_scope(
    raw: JsonView,
    context: AuthContextView,
    model: Seq<char>,
    route: RouteView,
)
    requires
        raw.get_str("model"@) == Some(model),
        model_denial(raw, Some(context)) is None,
        provider_denial(raw, Some(context), Some(route)) is None,
    ensures
        context.allowed_models matches Some(allowed) ==> allowed.contains(model),
        context.allowed_providers matches Some(allowed) ==> some_target_allowed(route, allowed),
{
}

/// A body that is too long is told from one that cannot be read, and one that is no
/// JSON is refused; what can be read is taken as it reads.
pub proof fn bodies_are_taken_as_they_read(read: Result<JsonView, Seq<char>>, too_long: bool)
    ensures
        unreadable_body(too_long).kind == if too_long {
            ErrorKind::RequestTooLarge
        } else {
            ErrorKind::RequestInvalid
        },
        read matches Ok(value) ==> request_json(read) == Ok::<JsonView, ErrorView>(value),
        read is Err ==> (request_json(read) matches Err(error) && error.kind
            == ErrorKind::RequestInvalid),
{
}

/// A key is denied a model just where it is restricted to others, and in the name of
/// that model; without a key, a model or a restriction nothing is denied.
pub proof fn models_are_denied_by_the_key(raw: JsonView, context: Option<AuthContextView>)
    ensures
        model_denial(raw, context) is Some <==> {
            &&& context is Some && context->0.allowed_models is Some
            &&& raw.get_str("model"@) is Some
            &&& !context->0.allowed_models->0.contains(raw.get_str("model"@)->0)
        },
        model_denial(raw, context) matches Some(error) ==> error.kind == ErrorKind::AuthFailed
            && contains_text(error.message, raw.get_str("model"@)->0),
{
    if let Some(error) = model_denial(raw, context) {
        let model = raw.get_str("model"@)->0;
        let front = "Relay key is not allowed to access model '"@;
        assert(error.message.subrange(front.len() as int, (front.len() + model.len()) as int)
            =~= model);
        assert(occurs_at(error.message, model, front.len() as int));
    }
}

/// A key is denied the providers of a model just where it is restricted to providers of
/// which the model's route has none.
pub proof fn providers_are_denied_by_the_key(
    raw: JsonView,
    context: Option<AuthContextView>,
    route: Option<RouteView>,
)
    ensures
        provider_denial(raw, context, route) is Some <==> {
            &&& context is Some && context->0.allowed_providers is Some
            &&& raw.get_str("model"@) is Some && route is Some
            &&& forall|i: int|
                0 <= i < route->0.targets.len()
                    ==> !context->0.allowed_providers->0.contains(
                    (#[trigger] route->0.targets[i]).provider,
                )
        },
        provider_denial(raw, context, route) matches Some(error) ==> error.kind
            == ErrorKind::AuthFailed,
{
}

} // verus!
