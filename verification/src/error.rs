//! Errors as the relay reports them, and the HTTP status that each one gets.

use crate::text::{join2, same};
use vstd::prelude::*;

verus! {

/// What went wrong, by kind.
#[derive(Debug, Clone, Copy, PartialEq, Eq, Structural)]
pub enum ErrorKind {
    AuthFailed,
    RateLimited,
    ModelNotFound,
    RequestTooLarge,
    RequestInvalid,
    ContextLengthExceeded,
    ProtocolNotSupported,
    ToolMappingFailed,
    StateNotFound,
    StateNotContinuable,
    StateReplayFailed,
    UpstreamTimeout,
    UpstreamUnavailable,
    InternalError,
}

impl DeepView for ErrorKind {
    type V = ErrorKind;

    open spec fn deep_view(&self) -> ErrorKind {
        *self
    }
}

impl ErrorKind {
    /// The name that clients see.
    pub open spec fn name(self) -> Seq<char> {
        match self {
            ErrorKind::AuthFailed => "auth_failed"@,
            ErrorKind::RateLimited => "rate_limited"@,
            ErrorKind::ModelNotFound => "model_not_found"@,
            ErrorKind::RequestTooLarge => "request_too_large"@,
            ErrorKind::RequestInvalid => "request_invalid"@,
            ErrorKind::ContextLengthExceeded => "context_length_exceeded"@,
            ErrorKind::ProtocolNotSupported => "protocol_not_supported"@,
            ErrorKind::ToolMappingFailed => "tool_mapping_failed"@,
            ErrorKind::StateNotFound => "state_not_found"@,
            ErrorKind::StateNotContinuable => "state_not_continuable"@,
            ErrorKind::StateReplayFailed => "state_replay_failed"@,
            ErrorKind::UpstreamTimeout => "upstream_timeout"@,
            ErrorKind::UpstreamUnavailable => "upstream_unavailable"@,
            ErrorKind::InternalError => "internal_error"@,
        }
    }

    /// The HTTP status of an error of this kind.
    pub open spec fn status(self) -> u16 {
        match self {
            ErrorKind::AuthFailed => 401,
            ErrorKind::RateLimited => 429,
            ErrorKind::ModelNotFound => 404,
            ErrorKind::RequestTooLarge => 413,
            ErrorKind::RequestInvalid => 400,
            ErrorKind::ContextLengthExceeded => 400,
            ErrorKind::ProtocolNotSupported => 400,
            ErrorKind::ToolMappingFailed => 400,
            ErrorKind::StateNotFound => 404,
            ErrorKind::StateNotContinuable => 409,
            ErrorKind::StateReplayFailed => 500,
            ErrorKind::UpstreamTimeout => 504,
            ErrorKind::UpstreamUnavailable => 502,
            ErrorKind::InternalError => 500,
        }
    }

    /// The name that clients see.
    pub fn as_str(self) -> (r: &'static str)
        ensures
            r@ == self.name(),
    {
        match self {
            ErrorKind::AuthFailed => "auth_failed",
            ErrorKind::RateLimited => "rate_limited",
            ErrorKind::ModelNotFound => "model_not_found",
            ErrorKind::RequestTooLarge => "request_too_large",
            ErrorKind::RequestInvalid => "request_invalid",
            ErrorKind::ContextLengthExceeded => "context_length_exceeded",
            ErrorKind::ProtocolNotSupported => "protocol_not_supported",
            ErrorKind::ToolMappingFailed => "tool_mapping_failed",
            ErrorKind::StateNotFound => "state_not_found",
            ErrorKind::StateNotContinuable => "state_not_continuable",
            ErrorKind::StateReplayFailed => "state_replay_failed",
            ErrorKind::UpstreamTimeout => "upstream_timeout",
            ErrorKind::UpstreamUnavailable => "upstream_unavailable",
            ErrorKind::InternalError => "internal_error",
        }
    }
}

/// An error: its kind and a message for the client.
#[derive(Debug)]
pub struct Error {
    pub kind: ErrorKind,
    pub message: String,
}

/// The mathematical value of an [`Error`].
#[verifier::ext_equal]
pub struct ErrorView {
    pub kind: ErrorKind,
    pub message: Seq<char>,
}

/// The error of a kind with a message.
pub open spec fn error_of(kind: ErrorKind, message: Seq<char>) -> ErrorView {
    ErrorView { kind, message }
}

impl DeepView for Error {
    type V = ErrorView;

    open spec fn deep_view(&self) -> ErrorView {
        ErrorView { kind: self.kind, message: self.message@ }
    }
}

impl Error {
    /// The error of a kind with a message.
    pub fn new(kind: ErrorKind, message: &str) -> (r: Error)
        ensures
            r.deep_view() == error_of(kind, message@),
    {
        Error { kind, message: message.to_owned() }
    }

    /// The error of a kind whose message is `front` followed by `back`.
    pub fn about(kind: ErrorKind, front: &str, back: &str) -> (r: Error)
        ensures
            r.deep_view() == error_of(kind, front@ + back@),
    {
        Error { kind, message: join2(front, back) }
    }

    /// An error equal to this one.
    pub fn duplicate(&self) -> (r: Error)
        ensures
            r.deep_view() == self.deep_view(),
    {
        Error { kind: self.kind, message: self.message.clone() }
    }

    /// The body of the answer that reports this error.
    pub fn to_response(&self) -> (r: ErrorResponse)
        ensures
            r.error.message@ == self.message@,
            r.error.error_type.deep_view() == Some(self.kind.name()),
            r.error.param is None,
            r.error.code.deep_view() == Some(self.kind.name()),
    {
        ErrorResponse {
            error: ErrorDetail {
                message: self.message.clone(),
                error_type: Some(self.kind.as_str().to_owned()),
                param: None,
                code: Some(self.kind.as_str().to_owned()),
            },
        }
    }
}

/// What a result shows: the value's view or the error's.
pub open spec fn outcome<T: DeepView>(result: Result<T, Error>) -> Result<T::V, ErrorView> {
    match result {
        Ok(value) => Ok(value.deep_view()),
        Err(error) => Err(error.deep_view()),
    }
}

/// The values of all results, or the error of the first one that holds one.
pub open spec fn collected<T>(results: Seq<Result<T, ErrorView>>) -> Result<Seq<T>, ErrorView>
    decreases results.len(),
{
    if results.len() == 0 {
        Ok(Seq::empty())
    } else {
        match collected(results.drop_last()) {
            Ok(values) => match results.last() {
                Ok(value) => Ok(values.push(value)),
                Err(error) => Err(error),
            },
            Err(error) => Err(error),
        }
    }
}

/// One more result behind `k` good ones.
pub proof fn lemma_collected_step<T>(results: Seq<Result<T, ErrorView>>, k: int)
    requires
        0 <= k < results.len(),
        collected(results.take(k)) is Ok,
    ensures
        results[k] matches Ok(value) ==> collected(results.take(k + 1)) == Ok::<Seq<T>, ErrorView>(
            collected(results.take(k))->Ok_0.push(value),
        ),
        results[k] matches Err(error) ==> collected(results) == Err::<Seq<T>, ErrorView>(error),
{
    let front = results.take(k + 1);
    assert(front.drop_last() =~= results.take(k));
    assert(front.last() == results[k]);
    if results[k] is Err {
        lemma_collected_error(results, k + 1);
    }
}

proof fn lemma_collected_error<T>(results: Seq<Result<T, ErrorView>>, k: int)
    requires
        0 <= k <= results.len(),
        collected(results.take(k)) is Err,
    ensures
        collected(results) == collected(results.take(k)),
    decreases results.len() - k,
{
    if k == results.len() {
        assert(results.take(k) =~= results);
    } else {
        assert(results.take(k + 1).drop_last() =~= results.take(k));
        lemma_collected_error(results, k + 1);
    }
}

/// All results together hold what they hold in full.
pub proof fn lemma_collected_all<T>(results: Seq<Result<T, ErrorView>>)
    ensures
        collected(results.take(results.len() as int)) == collected(results),
        collected(results.take(0)) == Ok::<Seq<T>, ErrorView>(Seq::empty()),
{
    assert(results.take(results.len() as int) =~= results);
}

/// Where all results are good, what is collected of them is their values.
pub proof fn lemma_collected_values<T>(results: Seq<Result<T, ErrorView>>, i: int)
    requires
        collected(results) is Ok,
        0 <= i < results.len(),
    ensures
        collected(results)->Ok_0.len() == results.len(),
        results[i] == Ok::<T, ErrorView>(collected(results)->Ok_0[i]),
    decreases results.len(),
{
    let front = results.drop_last();
    if i < front.len() {
        lemma_collected_values(front, i);
    } else if front.len() > 0 {
        lemma_collected_values(front, 0);
    }
}

/// The details of a reported error.
#[derive(Debug)]
pub struct ErrorDetail {
    pub message: String,
    pub error_type: Option<String>,
    pub param: Option<String>,
    pub code: Option<String>,
}

/// The body of an answer that reports an error.
#[derive(Debug)]
pub struct ErrorResponse {
    pub error: ErrorDetail,
}

/// Whether `status` is the HTTP status of an error reported under `error_type`:
/// that of the kind so named, and 500 where no kind is.
pub open spec fn reports_status(error_type: Option<Seq<char>>, status: u16) -> bool {
    &&& forall|kind: ErrorKind|
        error_type == Some(#[trigger] kind.name()) ==> status == kind.status()
    &&& (forall|kind: ErrorKind| error_type != Some(#[trigger] kind.name())) ==> status == 500
}

/// The HTTP status of an error response.
pub fn error_response_status(response: &ErrorResponse) -> (status: u16)
    ensures
        reports_status(response.error.error_type.deep_view(), status),
{
    proof {
        lemma_kind_names_distinct();
    }
    let name: &str = match &response.error.error_type {
        Some(name) => name.as_str(),
        None => {
            return 500;
        },
    };
    let ghost shown = name@;
    if same(name, "auth_failed") {
        assert(shown == ErrorKind::AuthFailed.name());
        401
    } else if same(name, "rate_limited") {
        assert(shown == ErrorKind::RateLimited.name());
        429
    } else if same(name, "model_not_found") {
        assert(shown == ErrorKind::ModelNotFound.name());
        404
    } else if same(name, "request_too_large") {
        assert(shown == ErrorKind::RequestTooLarge.name());
        413
    } else if same(name, "state_not_found") {
        assert(shown == ErrorKind::StateNotFound.name());
        404
    } else if same(name, "state_not_continuable") {
        assert(shown == ErrorKind::StateNotContinuable.name());
        409
    } else if same(name, "context_length_exceeded") {
        assert(shown == ErrorKind::ContextLengthExceeded.name());
        400
    } else if same(name, "request_invalid") {
        assert(shown == ErrorKind::RequestInvalid.name());
        400
    } else if same(name, "protocol_not_supported") {
        assert(shown == ErrorKind::ProtocolNotSupported.name());
        400
    } else if same(name, "tool_mapping_failed") {
        assert(shown == ErrorKind::ToolMappingFailed.name());
        400
    } else if same(name, "upstream_timeout") {
        assert(shown == ErrorKind::UpstreamTimeout.name());
        504
    } else if same(name, "upstream_unavailable") {
        assert(shown == ErrorKind::UpstreamUnavailable.name());
        502
    } else {
        500
    }
}

/// Two kinds with the same name are the same kind: a client can tell every
/// kind from the name alone.
pub proof fn lemma_kind_names_distinct()
    ensures
        forall|a: ErrorKind, b: ErrorKind| #[trigger] a.name() == #[trigger] b.name() ==> a == b,
{
    reveal_strlit("auth_failed");
    reveal_strlit("rate_limited");
    reveal_strlit("model_not_found");
    reveal_strlit("request_too_large");
    reveal_strlit("request_invalid");
    reveal_strlit("context_length_exceeded");
    reveal_strlit("protocol_not_supported");
    reveal_strlit("tool_mapping_failed");
    reveal_strlit("state_not_found");
    reveal_strlit("state_not_continuable");
    reveal_strlit("state_replay_failed");
    reveal_strlit("upstream_timeout");
    reveal_strlit("upstream_unavailable");
    reveal_strlit("internal_error");
    assert forall|a: ErrorKind, b: ErrorKind| #[trigger] a.name() == #[trigger] b.name() implies a
        == b by {
        assert(a.name().len() == b.name().len());
        assert(a.name()[0] == b.name()[0]);
        assert(a.name()[1] == b.name()[1]);
        assert(a.name()[6] == b.name()[6]);
        assert(a.name()[8] == b.name()[8]);
    }
}

/// What an error reports is answered with the status of its kind.
pub proof fn error_status_follows_kind(kind: ErrorKind, status: u16)
    requires
        reports_status(Some(kind.name()), status),
    ensures
        status == kind.status(),
{
}

/// What is collected is all the values, in order, or else the error of the first
/// result that holds one.
pub proof fn collected_is_all_or_the_first_error<T>(results: Seq<Result<T, ErrorView>>)
    ensures
        collected(results) matches Ok(values) ==> {
            &&& values.len() == results.len()
            &&& forall|i: int|
                0 <= i < results.len() ==> #[trigger] results[i] == Ok::<T, ErrorView>(values[i])
        },
        collected(results) matches Err(error) ==> exists|k: int|
            {
                &&& 0 <= k < results.len()
                &&& #[trigger] results[k] == Err::<T, ErrorView>(error)
                &&& forall|i: int| 0 <= i < k ==> #[trigger] results[i] is Ok
            },
    decreases results.len(),
{
    if results.len() > 0 {
        let front = results.drop_last();
        collected_is_all_or_the_first_error(front);
        assert forall|i: int| 0 <= i < front.len() implies #[trigger] front[i] == results[i] by {}
        match collected(front) {
            Ok(values) => {
                assert forall|i: int| 0 <= i < front.len() implies #[trigger] results[i] == Ok::<
                    T,
                    ErrorView,
                >(values[i]) by {
                    assert(front[i] == results[i]);
                }
                assert(results[results.len() - 1] == results.last());
            },
            Err(error) => {
                let k = choose|k: int|
                    {
                        &&& 0 <= k < front.len()
                        &&& #[trigger] front[k] == Err::<T, ErrorView>(error)
                        &&& forall|i: int| 0 <= i < k ==> #[trigger] front[i] is Ok
                    };
                assert(results[k] == Err::<T, ErrorView>(error));
                assert forall|i: int| 0 <= i < k implies #[trigger] results[i] is Ok by {
                    assert(front[i] is Ok);
                }
            },
        }
    }
}

/// Each kind of error is answered with its own status: what the client did wrong with
/// one of the four hundreds, and what went wrong here or upstream with one of the five
/// hundreds.
pub proof fn status_says_whose_fault_it_is(kind: ErrorKind)
    ensures
        kind.status() == 401 <==> kind == ErrorKind::AuthFailed,
        kind.status() == 404 <==> kind == ErrorKind::ModelNotFound || kind
            == ErrorKind::StateNotFound,
        kind.status() == 409 <==> kind == ErrorKind::StateNotContinuable,
        kind.status() == 413 <==> kind == ErrorKind::RequestTooLarge,
        kind.status() == 429 <==> kind == ErrorKind::RateLimited,
        kind.status() == 400 <==> kind == ErrorKind::RequestInvalid || kind
            == ErrorKind::ContextLengthExceeded || kind == ErrorKind::ProtocolNotSupported || kind
            == ErrorKind::ToolMappingFailed,
        kind.status() == 500 <==> kind == ErrorKind::InternalError || kind
            == ErrorKind::StateReplayFailed,
        kind.status() == 502 <==> kind == ErrorKind::UpstreamUnavailable,
        kind.status() == 504 <==> kind == ErrorKind::UpstreamTimeout,
{
}

/// An error is what it was made of, and it is known to clients by the words of its kind.
pub proof fn errors_keep_their_words(kind: ErrorKind, message: Seq<char>)
    ensures
        error_of(kind, message).kind == kind && error_of(kind, message).message == message,
        ErrorKind::AuthFailed.name() == "auth_failed"@,
        ErrorKind::RateLimited.name() == "rate_limited"@,
        ErrorKind::ModelNotFound.name() == "model_not_found"@,
        ErrorKind::RequestTooLarge.name() == "request_too_large"@,
        ErrorKind::RequestInvalid.name() == "request_invalid"@,
        ErrorKind::ContextLengthExceeded.name() == "context_length_exceeded"@,
        ErrorKind::ProtocolNotSupported.name() == "protocol_not_supported"@,
        ErrorKind::ToolMappingFailed.name() == "tool_mapping_failed"@,
        ErrorKind::StateNotFound.name() == "state_not_found"@,
        ErrorKind::StateNotContinuable.name() == "state_not_continuable"@,
        ErrorKind::StateReplayFailed.name() == "state_replay_failed"@,
        ErrorKind::UpstreamTimeout.name() == "upstream_timeout"@,
        ErrorKind::UpstreamUnavailable.name() == "upstream_unavailable"@,
        ErrorKind::InternalError.name() == "internal_error"@,
{
}

} // verus!
