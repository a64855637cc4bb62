//! Fresh identifiers.

use vstd::prelude::*;

verus! {

/// `uuid::Uuid::now_v7`: a fresh identifier that starts with the time. Nothing
/// is stated of it.
#[verifier::external_body]
pub(crate) fn fresh_v7() -> (r: String) {
    uuid::Uuid::now_v7().to_string()
}

/// `uuid::Uuid::new_v4`: a fresh random identifier. Nothing is stated of it.
#[verifier::external_body]
pub(crate) fn fresh_v4() -> (r: String) {
    uuid::Uuid::new_v4().to_string()
}

} // verus!
