//! Health check endpoints.

use vstd::prelude::*;

verus! {

/// Health response.
#[derive(Debug)]
pub struct HealthResponse {
    pub status: String,
    pub version: String,
}

/// Whether a response says that all is well with this version.
pub open spec fn is_well(response: HealthResponse, version: Seq<char>) -> bool {
    response.status@ == "ok"@ && response.version@ == version
}

/// The answer to the basic health check.
pub fn healthz(version: &str) -> (r: HealthResponse)
    ensures
        is_well(r, version@),
{
    HealthResponse { status: "ok".to_owned(), version: version.to_owned() }
}

/// The answer to the readiness check, or the status of the refusal where the
/// store cannot be reached.
pub fn readyz(reachable: bool, version: &str) -> (r: Result<HealthResponse, u16>)
    ensures
        match r {
            Ok(response) => reachable && is_well(response, version@),
            Err(status) => !reachable && status == 503,
        },
{
    if reachable {
        Ok(healthz(version))
    } else {
        Err(503)
    }
}

/// A healthy server says so, and in which version.
pub proof fn health_tells_the_version(response: HealthResponse, version: Seq<char>)
    ensures
        is_well(response, version) <==> response.status@ == "ok"@ && response.version@ == version,
{
}

} // verus!
