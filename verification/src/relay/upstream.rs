//! Addresses of upstreams, and what their failures mean to a client.

use crate::error::{error_of, Error, ErrorKind, ErrorView};
use crate::text::{
    bytes_to_text, contains, contains_text, drop_leading, drop_trailing, first_chars, join3,
    lower_case, occurs_at, take_chars, text_of_bytes, to_lowercase, trim, trim_end_char, trim_start_char,
    trimmed,
};
use vstd::prelude::*;
use vstd::string::StrSliceExecFns;
use vstd::utf8::{encode_utf8, encode_utf8_decode_utf8, encode_utf8_valid_utf8};

verus! {

/// `path` below `base_url`, with one slash between.
pub open spec fn joined_url(base_url: Seq<char>, path: Seq<char>) -> Seq<char> {
    drop_trailing(base_url, |c: char| c == '/') + "/"@ + drop_leading(path, |c: char| c == '/')
}

/// `path` below `base_url`, with one slash between.
pub fn join_url(base_url: &str, path: &str) -> (r: String)
    ensures
        r@ == joined_url(base_url@, path@),
{
    join3(trim_end_char(base_url, '/'), "/", trim_start_char(path, '/'))
}

/// What a client is shown of an upstream's message: at most its first 512
/// characters, without surrounding white space.
pub open spec fn shown_message(text: Seq<char>) -> Seq<char> {
    if trimmed(text).len() == 0 {
        "Upstream returned an error"@
    } else {
        first_chars(trimmed(text), 512)
    }
}

/// What a client is shown of an upstream's message.
pub fn redacted_message(text: &str) -> (r: String)
    ensures
        r@ == shown_message(text@),
{
    let trimmed = trim(text);
    if trimmed.is_empty() {
        "Upstream returned an error".to_owned()
    } else {
        take_chars(trimmed, 512)
    }
}

/// What a client is shown of the body of an upstream's error.
pub fn redacted_upstream_error(body: &Vec<u8>) -> (r: String)
    ensures
        r@ == shown_message(text_of_bytes(body@)),
{
    let text = bytes_to_text(body);
    redacted_message(text.as_str())
}

/// The kind of error that an upstream's HTTP status stands for.
pub open spec fn status_kind(status: u16) -> ErrorKind {
    if status == 401 || status == 403 {
        ErrorKind::AuthFailed
    } else if status == 429 {
        ErrorKind::RateLimited
    } else if status == 504 {
        ErrorKind::UpstreamTimeout
    } else if status == 400 {
        ErrorKind::RequestInvalid
    } else {
        ErrorKind::UpstreamUnavailable
    }
}

/// The error that an upstream's HTTP status and body stand for.
pub open spec fn status_error(status: u16, body: Seq<u8>) -> ErrorView {
    error_of(status_kind(status), shown_message(text_of_bytes(body)))
}

/// The error that an upstream's HTTP status and body stand for.
pub fn map_upstream_status(status: u16, body: &Vec<u8>) -> (r: Error)
    ensures
        r.deep_view() == status_error(status, body@),
{
    let message = redacted_upstream_error(body);
    let kind = match status {
        401 | 403 => ErrorKind::AuthFailed,
        429 => ErrorKind::RateLimited,
        504 => ErrorKind::UpstreamTimeout,
        400 => ErrorKind::RequestInvalid,
        _ => ErrorKind::UpstreamUnavailable,
    };
    Error { kind, message }
}

/// The error of a request that got no answer.
pub open spec fn transport_error(timed_out: bool, detail: Seq<char>) -> ErrorView {
    if timed_out {
        error_of(ErrorKind::UpstreamTimeout, "Upstream request timed out"@)
    } else {
        error_of(ErrorKind::UpstreamUnavailable, "Upstream request failed: "@ + detail)
    }
}

/// The error of a request that got no answer.
pub fn map_reqwest_error(timed_out: bool, detail: &str) -> (r: Error)
    ensures
        r.deep_view() == transport_error(timed_out, detail@),
{
    if timed_out {
        Error::new(ErrorKind::UpstreamTimeout, "Upstream request timed out")
    } else {
        Error::about(ErrorKind::UpstreamUnavailable, "Upstream request failed: ", detail)
    }
}

/// How the reading of an upstream's answer can fail.
#[derive(Debug)]
pub enum UpstreamError {
    HttpError { status: u16, message: String },
    Timeout,
    ConnectionError(String),
    ProtocolNotSupported,
    ParseError(String),
    InvalidResponse(String),
}

/// The mathematical value of an [`UpstreamError`].
#[verifier::ext_equal]
pub enum UpstreamErrorView {
    HttpError { status: u16, message: Seq<char> },
    Timeout,
    ConnectionError(Seq<char>),
    ProtocolNotSupported,
    ParseError(Seq<char>),
    InvalidResponse(Seq<char>),
}

impl DeepView for UpstreamError {
    type V = UpstreamErrorView;

    open spec fn deep_view(&self) -> UpstreamErrorView {
        match self {
            UpstreamError::HttpError { status, message } => UpstreamErrorView::HttpError {
                status: *status,
                message: message@,
            },
            UpstreamError::Timeout => UpstreamErrorView::Timeout,
            UpstreamError::ConnectionError(message) => UpstreamErrorView::ConnectionError(message@),
            UpstreamError::ProtocolNotSupported => UpstreamErrorView::ProtocolNotSupported,
            UpstreamError::ParseError(message) => UpstreamErrorView::ParseError(message@),
            UpstreamError::InvalidResponse(message) => UpstreamErrorView::InvalidResponse(message@),
        }
    }
}

/// The error that a failure to read an answer stands for.
pub open spec fn adapter_error(error: UpstreamErrorView) -> ErrorView {
    match error {
        UpstreamErrorView::HttpError { status, message } => status_error(
            status,
            encode_utf8(message),
        ),
        UpstreamErrorView::Timeout => error_of(
            ErrorKind::UpstreamTimeout,
            "Upstream adapter timed out"@,
        ),
        UpstreamErrorView::ConnectionError(message) => error_of(
            ErrorKind::UpstreamUnavailable,
            message,
        ),
        UpstreamErrorView::ProtocolNotSupported => error_of(
            ErrorKind::ProtocolNotSupported,
            "Upstream protocol is not supported by this target"@,
        ),
        UpstreamErrorView::ParseError(message) => error_of(ErrorKind::UpstreamUnavailable, message),
        UpstreamErrorView::InvalidResponse(message) => error_of(
            ErrorKind::UpstreamUnavailable,
            message,
        ),
    }
}

/// The error that a failure to read an answer stands for.
pub fn map_adapter_error(error: UpstreamError) -> (r: Error)
    ensures
        r.deep_view() == adapter_error(error.deep_view()),
{
    match error {
        UpstreamError::HttpError { status, message } => {
            let body = message.as_str().as_bytes_vec();
            map_upstream_status(status, &body)
        },
        UpstreamError::Timeout => Error::new(
            ErrorKind::UpstreamTimeout,
            "Upstream adapter timed out",
        ),
        UpstreamError::ConnectionError(message) => Error {
            kind: ErrorKind::UpstreamUnavailable,
            message,
        },
        UpstreamError::ProtocolNotSupported => Error::new(
            ErrorKind::ProtocolNotSupported,
            "Upstream protocol is not supported by this target",
        ),
        UpstreamError::ParseError(message) => Error {
            kind: ErrorKind::UpstreamUnavailable,
            message,
        },
        UpstreamError::InvalidResponse(message) => Error {
            kind: ErrorKind::UpstreamUnavailable,
            message,
        },
    }
}

/// Whether a message, in lower case, says that the response to be continued is
/// not known upstream.
pub open spec fn says_handle_missing(lower: Seq<char>) -> bool {
    ||| contains_text(lower, "previous_response_id"@)
    ||| contains_text(lower, "response not found"@)
    ||| contains_text(lower, "state not found"@)
}

/// Whether a message, in lower case, says that the response to be continued is
/// not known upstream.
pub fn mentions_missing_handle(lower: &str) -> (r: bool)
    ensures
        r == says_handle_missing(lower@),
{
    contains(lower, "previous_response_id") || contains(lower, "response not found") || contains(
        lower,
        "state not found",
    )
}

/// Whether an answer says that the response to be continued is not known
/// upstream.
pub open spec fn handle_missing(status: u16, body: Seq<u8>) -> bool {
    &&& status == 404 || status == 400
    &&& says_handle_missing(lower_case(shown_message(text_of_bytes(body))))
}

/// Whether an answer says that the response to be continued is not known
/// upstream.
pub fn is_missing_handle(status: u16, body: &Vec<u8>) -> (r: bool)
    ensures
        r == handle_missing(status, body@),
{
    if status != 404 && status != 400 {
        return false;
    }
    let message = redacted_upstream_error(body);
    let lower = to_lowercase(message.as_str());
    mentions_missing_handle(lower.as_str())
}

/// What a client is shown of an upstream's message never exceeds 512
/// characters.
pub proof fn shown_message_is_short(text: Seq<char>)
    ensures
        shown_message(text).len() <= 512,
{
    reveal_strlit("Upstream returned an error");
}

/// Whatever slashes stand at the end of a base and in front of a path, one stands
/// between them, and nothing else of either is lost.
pub proof fn one_slash_joins_base_and_path(base_url: Seq<char>, path: Seq<char>)
    requires
        base_url.len() > 0 ==> base_url.last() != '/',
        path.len() > 0 ==> path[0] != '/',
    ensures
        joined_url(base_url, path) == base_url + "/"@ + path,
        joined_url(base_url + "/"@, "/"@ + path) == joined_url(base_url, path),
        joined_url(base_url, "/"@ + path) == joined_url(base_url, path),
        joined_url(base_url + "/"@, path) == joined_url(base_url, path),
{
    reveal_strlit("/");
    let is_slash = |c: char| c == '/';
    assert("/"@ =~= seq!['/']);
    let longer = base_url + "/"@;
    let behind = "/"@ + path;
    assert(longer.last() == '/' && longer.drop_last() =~= base_url);
    assert(behind[0] == '/' && behind.drop_first() =~= path);
    reveal_with_fuel(drop_trailing, 2);
    reveal_with_fuel(drop_leading, 2);
    assert(drop_trailing(base_url, is_slash) == base_url);
    assert(drop_leading(path, is_slash) == path);
    assert(drop_trailing(longer, is_slash) == base_url);
    assert(drop_leading(behind, is_slash) == path);
}

/// What a client is shown of a message is its front, up to 512 characters, without
/// the white space around it; a message without anything else is never shown empty.
pub proof fn shown_message_is_the_front(text: Seq<char>)
    ensures
        shown_message(text).len() > 0,
        trimmed(text).len() > 0 ==> {
            &&& shown_message(text).len() <= trimmed(text).len()
            &&& trimmed(text).take(shown_message(text).len() as int) == shown_message(text)
            &&& trimmed(text).len() <= 512 ==> shown_message(text) == trimmed(text)
            &&& trimmed(text).len() > 512 ==> shown_message(text).len() == 512
        },
{
    reveal_strlit("Upstream returned an error");
    if trimmed(text).len() > 0 && trimmed(text).len() <= 512 {
        assert(trimmed(text).take(trimmed(text).len() as int) =~= trimmed(text));
    }
}

/// What an upstream's status is reported as: a refused key as a failed
/// authentication, too many requests as a rate limit, a gateway's timeout as a
/// timeout, a bad request as one, and anything else as an upstream that cannot be
/// reached. The message is the upstream's own.
pub proof fn status_is_reported_by_its_meaning(status: u16, body: Seq<u8>)
    ensures
        status_error(status, body).kind == ErrorKind::AuthFailed <==> status == 401 || status
            == 403,
        status_error(status, body).kind == ErrorKind::RateLimited <==> status == 429,
        status_error(status, body).kind == ErrorKind::UpstreamTimeout <==> status == 504,
        status_error(status, body).kind == ErrorKind::RequestInvalid <==> status == 400,
        status_error(status, body).kind == ErrorKind::UpstreamUnavailable <==> !(status == 401
            || status == 403 || status == 429 || status == 504 || status == 400),
        status_error(status, body).message == shown_message(text_of_bytes(body)),
{
}

/// A request without an answer is reported as a timeout just where it timed out, and
/// else with what went wrong.
pub proof fn silence_is_reported_by_its_cause(timed_out: bool, detail: Seq<char>)
    ensures
        transport_error(timed_out, detail).kind == if timed_out {
            ErrorKind::UpstreamTimeout
        } else {
            ErrorKind::UpstreamUnavailable
        },
        !timed_out ==> contains_text(transport_error(timed_out, detail).message, detail),
{
    if !timed_out {
        let front = "Upstream request failed: "@;
        let message = transport_error(timed_out, detail).message;
        assert(message.subrange(front.len() as int, (front.len() + detail.len()) as int)
            =~= detail);
        assert(occurs_at(message, detail, front.len() as int));
    }
}

/// A failure to read an answer is reported by what it is: a status by its meaning, a
/// timeout as one, a protocol that is not spoken as that, and anything else, with its
/// own message, as an upstream that cannot be reached.
pub proof fn adapter_failure_is_reported_by_its_cause(error: UpstreamErrorView)
    ensures
        match error {
            UpstreamErrorView::HttpError { status, message } => adapter_error(error).kind
                == status_error(status, encode_utf8(message)).kind && adapter_error(error).message
                == shown_message(message),
            UpstreamErrorView::Timeout => adapter_error(error).kind == ErrorKind::UpstreamTimeout,
            UpstreamErrorView::ProtocolNotSupported => adapter_error(error).kind
                == ErrorKind::ProtocolNotSupported,
            UpstreamErrorView::ConnectionError(message) => adapter_error(error).kind
                == ErrorKind::UpstreamUnavailable && adapter_error(error).message == message,
            UpstreamErrorView::ParseError(message) => adapter_error(error).kind
                == ErrorKind::UpstreamUnavailable && adapter_error(error).message == message,
            UpstreamErrorView::InvalidResponse(message) => adapter_error(error).kind
                == ErrorKind::UpstreamUnavailable && adapter_error(error).message == message,
        },
{
    if let UpstreamErrorView::HttpError { status, message } = error {
        encode_utf8_valid_utf8(message);
        encode_utf8_decode_utf8(message);
    }
}

/// An upstream says that it does not know a handle under status 400 or 404 alone, and
/// in one of three phrases, in letters of either case.
pub proof fn missing_handle_is_said_in_so_many_words(status: u16, body: Seq<u8>)
    ensures
        handle_missing(status, body) <==> (status == 400 || status == 404) && {
            let said = lower_case(shown_message(text_of_bytes(body)));
            ||| contains_text(said, "previous_response_id"@)
            ||| contains_text(said, "response not found"@)
            ||| contains_text(said, "state not found"@)
        },
{
}

} // verus!
