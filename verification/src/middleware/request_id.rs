//! The id of a request: the client's own, or a fresh one.

use crate::middleware::headers::{is_header_value, takes_header_value};
use vstd::prelude::*;

verus! {

/// The header that carries the id of a request.
pub const REQUEST_ID_HEADER: &'static str = "x-request-id";

/// The id of a request, as the parts that handle it see it.
#[derive(Debug)]
pub struct RequestIdExt(pub String);

impl View for RequestIdExt {
    type V = Seq<char>;

    open spec fn view(&self) -> Seq<char> {
        self.0@
    }
}

impl RequestIdExt {
    /// The id.
    pub fn get_id(&self) -> (r: &str)
        ensures
            r@ == self@,
    {
        self.0.as_str()
    }
}

/// The id of a request: that of its header where there is one, or else `fresh`.
pub fn request_id(header: Option<&str>, fresh: String) -> (r: RequestIdExt)
    ensures
        r@ == (match header {
            Some(id) => id@,
            None => fresh@,
        }),
{
    match header {
        Some(id) => RequestIdExt(id.to_owned()),
        None => RequestIdExt(fresh),
    }
}

/// The id that the answer carries: that of the request where a header can hold
/// it.
pub open spec fn echoed_id(id: Seq<char>) -> Seq<char> {
    if is_header_value(id) {
        id
    } else {
        "unknown"@
    }
}

/// The id that the answer carries.
pub fn response_request_id(id: &RequestIdExt) -> (r: String)
    ensures
        r@ == echoed_id(id@),
{
    if takes_header_value(id.0.as_str()) {
        id.0.clone()
    } else {
        "unknown".to_owned()
    }
}

/// An id that the client sends is the one it gets back.
pub proof fn request_id_is_echoed(id: Seq<char>)
    requires
        is_header_value(id),
    ensures
        echoed_id(id) == id,
{
}

/// What a header cannot hold is never echoed.
pub proof fn unfit_ids_are_not_echoed(id: Seq<char>)
    requires
        !is_header_value(id),
    ensures
        echoed_id(id) == "unknown"@,
{
}

} // verus!
