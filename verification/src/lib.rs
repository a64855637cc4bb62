//! ModelWire: a relay that presents the Responses API to its clients and routes
//! each model to upstreams that speak Responses, Anthropic Messages or OpenAI
//! Chat Completions.

pub mod admin;
pub mod canonical;
pub mod cli;
pub mod clock;
pub mod config;
pub mod error;
pub mod ids;
pub mod janitor;
pub mod json;
pub mod middleware;
pub mod relay;
pub mod request_limiter;
pub mod routes;
pub mod runtime_config;
pub mod secrets;
pub mod server;
pub mod store;
pub mod text;

use vstd::prelude::*;

verus! {

/// `std::time::SystemTime`, a point in time.
#[verifier::external_type_specification]
#[verifier::external_body]
pub struct ExSystemTime(std::time::SystemTime);

/// `SystemTime::now`: the time. Nothing is stated of it.
pub assume_specification[ std::time::SystemTime::now ]() -> (r: std::time::SystemTime)
;

/// The span that a time lies behind the Unix epoch; none where it lies before it.
pub uninterp spec fn since_epoch(now: std::time::SystemTime) -> Option<std::time::Duration>;

/// `SystemTime::duration_since` of `UNIX_EPOCH`: the span from the epoch to a time,
/// or an error where the epoch is later. It is named, not described.
#[verifier::external_body]
fn time_since_epoch(now: &std::time::SystemTime) -> (r: Option<std::time::Duration>)
    ensures
        r == since_epoch(*now),
{
    now.duration_since(std::time::SystemTime::UNIX_EPOCH).ok()
}

/// The whole seconds of a span.
pub uninterp spec fn whole_seconds(span: std::time::Duration) -> u64;

/// `Duration::as_secs`: the whole seconds of a span. They are named, not
/// described.
pub assume_specification[ std::time::Duration::as_secs ](this: &std::time::Duration) -> (r: u64)
    ensures
        r == whole_seconds(*this),
;

/// The seconds that have passed since the Unix epoch, where any have.
pub fn seconds_or_zero(passed: Option<u64>) -> (r: u64)
    ensures
        r == (match passed {
            Some(seconds) => seconds,
            None => 0,
        }),
{
    match passed {
        Some(seconds) => seconds,
        None => 0,
    }
}

/// The whole seconds of a span; zero where there is none.
pub open spec fn seconds_of(span: Option<std::time::Duration>) -> u64 {
    match span {
        Some(span) => whole_seconds(span),
        None => 0,
    }
}

/// Whether a clock can read so many seconds since the Unix epoch: the whole seconds
/// of the span since the epoch, or zero where the clock is set before it.
pub open spec fn is_unix_now(secs: u64) -> bool {
    exists|now: std::time::SystemTime| secs == seconds_of(#[trigger] since_epoch(now))
}

/// The seconds since the Unix epoch; zero while the clock is set before it. What
/// the clock shows is not stated.
pub fn current_unix_secs() -> (r: u64)
    ensures
        is_unix_now(r),
{
    let now = std::time::SystemTime::now();
    let r: u64 = match time_since_epoch(&now) {
        Some(span) => seconds_or_zero(Some(span.as_secs())),
        None => seconds_or_zero(None),
    };
    assert(r == seconds_of(since_epoch(now)));
    r
}

/// A window of a request rate: when it began, and how many requests fell in it.
#[derive(Debug, Clone, Copy, PartialEq, Eq, Structural)]
pub struct KeyRateLimitState {
    pub window_started_at_secs: u64,
    pub request_count: u32,
}

impl Default for KeyRateLimitState {
    fn default() -> (r: Self)
        ensures
            r.window_started_at_secs == 0,
            r.request_count == 0,
    {
        KeyRateLimitState { window_started_at_secs: 0, request_count: 0 }
    }
}

/// The counters of a key: the requests under way, and the window of its rate.
#[derive(Debug, Clone, Copy, PartialEq, Eq, Structural)]
pub struct KeyLimiterCounters {
    pub in_flight: u32,
    pub rate: KeyRateLimitState,
}

impl Default for KeyLimiterCounters {
    /// No requests, in a window that begins now.
    fn default() -> (r: Self)
        ensures
            r.in_flight == 0,
            r.rate.request_count == 0,
            is_unix_now(r.rate.window_started_at_secs),
    {
        KeyLimiterCounters {
            in_flight: 0,
            rate: KeyRateLimitState {
                window_started_at_secs: current_unix_secs(),
                request_count: 0,
            },
        }
    }
}

} // verus!
