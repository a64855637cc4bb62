//! Per-key request limiting for downstream relay keys, and the rate limit per
//! client address.

use crate::error::{error_of, Error, ErrorKind, ErrorView};
use crate::{current_unix_secs, is_unix_now, KeyLimiterCounters, KeyRateLimitState};
use vstd::prelude::*;

verus! {

/// `dashmap::DashMap`, a hash map that can be shared between threads.
#[verifier::external_type_specification]
#[verifier::external_body]
#[verifier::reject_recursive_types(K)]
#[verifier::reject_recursive_types(V)]
#[verifier::reject_recursive_types(S)]
pub struct ExDashMap<K, V, S>(dashmap::DashMap<K, V, S>);

/// The counters that a map holds, by key.
pub uninterp spec fn counters_in(
    map: dashmap::DashMap<String, KeyLimiterCounters>,
) -> Map<Seq<char>, KeyLimiterCounters>;

/// No counters.
pub open spec fn empty_table() -> Map<Seq<char>, KeyLimiterCounters> {
    Map::empty()
}

/// `DashMap::new`: a map that holds nothing.
#[verifier::external_body]
fn no_counters() -> (r: dashmap::DashMap<String, KeyLimiterCounters>)
    ensures
        counters_in(r) == empty_table(),
{
    dashmap::DashMap::new()
}

/// `DashMap::get`: what the map holds for the key, as a copy.
#[verifier::external_body]
fn get_counters(map: &dashmap::DashMap<String, KeyLimiterCounters>, key: &str) -> (r: Option<
    KeyLimiterCounters,
>)
    ensures
        r == (if counters_in(*map).dom().contains(key@) {
            Some(counters_in(*map)[key@])
        } else {
            None
        }),
{
    map.get(key).map(|entry| *entry.value())
}

/// `DashMap::insert`: the map holds the value for the key, in place of what it
/// held before.
#[verifier::external_body]
fn set_counters(
    map: &mut dashmap::DashMap<String, KeyLimiterCounters>,
    key: &str,
    counters: KeyLimiterCounters,
)
    ensures
        counters_in(*final(map)) == counters_in(*old(map)).insert(key@, counters),
{
    map.insert(key.to_string(), counters);
}

/// Counters by key.
pub struct CounterTable {
    counters: dashmap::DashMap<String, KeyLimiterCounters>,
}

impl View for CounterTable {
    type V = Map<Seq<char>, KeyLimiterCounters>;

    closed spec fn view(&self) -> Map<Seq<char>, KeyLimiterCounters> {
        counters_in(self.counters)
    }
}

impl CounterTable {
    /// A table without counters.
    pub fn new() -> (r: CounterTable)
        ensures
            r@ == empty_table(),
    {
        CounterTable { counters: no_counters() }
    }

    /// The counters of a key, where it has any.
    pub fn get(&self, key: &str) -> (r: Option<KeyLimiterCounters>)
        ensures
            r == (if self@.dom().contains(key@) {
                Some(self@[key@])
            } else {
                None
            }),
    {
        get_counters(&self.counters, key)
    }

    fn set(&mut self, key: &str, counters: KeyLimiterCounters)
        ensures
            final(self)@ == old(self)@.insert(key@, counters),
    {
        set_counters(&mut self.counters, key, counters);
    }
}

/// What the enforcement of a key's limits reserved.
#[derive(Debug, Clone, Copy, PartialEq, Eq, Structural)]
pub struct LimitEnforcement {
    pub in_flight_reserved: bool,
}

impl Default for LimitEnforcement {
    fn default() -> (r: Self)
        ensures
            !r.in_flight_reserved,
    {
        LimitEnforcement { in_flight_reserved: false }
    }
}

/// The window as a request at `now` finds it: a minute after it began a new one
/// begins.
pub open spec fn window_at(rate: KeyRateLimitState, now: u64) -> KeyRateLimitState {
    if now.saturating_sub(rate.window_started_at_secs) >= 60 {
        KeyRateLimitState { window_started_at_secs: now, request_count: 0 }
    } else {
        rate
    }
}

/// The window after a request at `now`, and whether the request is within the
/// rate. One that is not leaves the count as it is.
pub open spec fn count_request(rate: KeyRateLimitState, limit: u32, now: u64) -> (
    KeyRateLimitState,
    bool,
) {
    let window = window_at(rate, now);
    if limit == 0 {
        (rate, false)
    } else if window.request_count >= limit {
        (window, false)
    } else {
        (
            KeyRateLimitState {
                request_count: window.request_count.saturating_add(1),
                ..window
            },
            true,
        )
    }
}

/// Counts a request; says whether it is within the rate.
fn take_request(rate: &mut KeyRateLimitState, limit: u32, now: u64) -> (r: bool)
    ensures
        (*final(rate), r) == count_request(*old(rate), limit, now),
{
    if limit == 0 {
        return false;
    }
    if now.saturating_sub(rate.window_started_at_secs) >= 60 {
        *rate = KeyRateLimitState { window_started_at_secs: now, request_count: 0 };
    }
    if rate.request_count >= limit {
        return false;
    }
    rate.request_count = rate.request_count.saturating_add(1);
    true
}

/// The refusal of a request over a key's rate.
pub open spec fn key_rate_error() -> ErrorView {
    error_of(ErrorKind::RateLimited, "Relay key request rate limit exceeded"@)
}

/// The refusal of a request over a key's concurrency.
pub open spec fn key_concurrency_error() -> ErrorView {
    error_of(ErrorKind::RateLimited, "Relay key concurrency limit exceeded"@)
}

/// A key's counters after a request at `now`, and what came of it: whether a
/// slot was reserved, or the refusal. The rate is checked first; a request that
/// only fails for concurrency has been counted.
pub open spec fn admission(
    counters: KeyLimiterCounters,
    requests_per_minute: Option<u32>,
    max_concurrency: Option<u32>,
    now: u64,
) -> (KeyLimiterCounters, Result<bool, ErrorView>) {
    let (rate, within) = match requests_per_minute {
        Some(limit) => count_request(counters.rate, limit, now),
        None => (counters.rate, true),
    };
    let counted = KeyLimiterCounters { rate, ..counters };
    if !within {
        (counted, Err(key_rate_error()))
    } else {
        match max_concurrency {
            None => (counted, Ok(false)),
            Some(limit) => if limit == 0 || counted.in_flight >= limit {
                (counted, Err(key_concurrency_error()))
            } else {
                (
                    KeyLimiterCounters {
                        in_flight: counted.in_flight.saturating_add(1),
                        ..counted
                    },
                    Ok(true),
                )
            },
        }
    }
}

/// The counters of a key; `fresh` where it has none yet.
pub open spec fn counters_or(
    table: Map<Seq<char>, KeyLimiterCounters>,
    key: Seq<char>,
    fresh: KeyLimiterCounters,
) -> KeyLimiterCounters {
    if table.dom().contains(key) {
        table[key]
    } else {
        fresh
    }
}

/// Enforces a key's limits for a request at `now_secs`. A key without counters
/// starts from `fresh`.
pub fn enforce_key_limits_at(
    state: &mut CounterTable,
    key_hash: &str,
    requests_per_minute: Option<u32>,
    max_concurrency: Option<u32>,
    now_secs: u64,
    fresh: KeyLimiterCounters,
) -> (r: Result<LimitEnforcement, Error>)
    ensures
        ({
            let (counters, came_of_it) = admission(
                counters_or(old(state)@, key_hash@, fresh),
                requests_per_minute,
                max_concurrency,
                now_secs,
            );
            &&& final(state)@ == old(state)@.insert(key_hash@, counters)
            &&& match r {
                Ok(enforcement) => came_of_it == Ok::<bool, ErrorView>(
                    enforcement.in_flight_reserved,
                ),
                Err(error) => came_of_it == Err::<bool, ErrorView>(error.deep_view()),
            }
        }),
{
    let mut counters: KeyLimiterCounters = match state.get(key_hash) {
        Some(counters) => counters,
        None => fresh,
    };
    if let Some(limit) = requests_per_minute {
        let mut rate: KeyRateLimitState = counters.rate;
        let within = take_request(&mut rate, limit, now_secs);
        counters.rate = rate;
        if !within {
            state.set(key_hash, counters);
            return Err(
                Error::new(ErrorKind::RateLimited, "Relay key request rate limit exceeded"),
            );
        }
    }
    let mut reserved = false;
    if let Some(limit) = max_concurrency {
        if limit == 0 || counters.in_flight >= limit {
            state.set(key_hash, counters);
            return Err(
                Error::new(ErrorKind::RateLimited, "Relay key concurrency limit exceeded"),
            );
        }
        counters.in_flight = counters.in_flight.saturating_add(1);
        reserved = true;
    }
    state.set(key_hash, counters);
    Ok(LimitEnforcement { in_flight_reserved: reserved })
}

/// Enforce per-key limits and reserve one in-flight slot for this request.
///
/// The caller must invoke [`decrement_in_flight`] when request handling finishes
/// if `in_flight_reserved` is true.
pub fn enforce_key_limits(
    state: &mut CounterTable,
    key_hash: &str,
    requests_per_minute: Option<u32>,
    max_concurrency: Option<u32>,
) -> (r: Result<LimitEnforcement, Error>)
    ensures
        exists|now: u64, began: u64| #[trigger]
            key_limits_enforced(
                old(state)@,
                final(state)@,
                key_hash@,
                requests_per_minute,
                max_concurrency,
                now,
                began,
                r,
            ) && is_unix_now(now) && is_unix_now(began),
{
    let now_secs: u64 = current_unix_secs();
    let fresh = KeyLimiterCounters::default();
    let r = enforce_key_limits_at(
        state,
        key_hash,
        requests_per_minute,
        max_concurrency,
        now_secs,
        fresh,
    );
    assert(key_limits_enforced(
        old(state)@,
        state@,
        key_hash@,
        requests_per_minute,
        max_concurrency,
        now_secs,
        fresh.rate.window_started_at_secs,
        r,
    ));
    r
}

/// Whether the limits of a key were enforced as of `now`; where the key had no
/// counters its window began at `began`.
pub open spec fn key_limits_enforced(
    before: Map<Seq<char>, KeyLimiterCounters>,
    after: Map<Seq<char>, KeyLimiterCounters>,
    key_hash: Seq<char>,
    requests_per_minute: Option<u32>,
    max_concurrency: Option<u32>,
    now: u64,
    began: u64,
    r: Result<LimitEnforcement, Error>,
) -> bool {
    let fresh = KeyLimiterCounters {
        in_flight: 0,
        rate: KeyRateLimitState { window_started_at_secs: began, request_count: 0 },
    };
    let (counters, came_of_it) = admission(
        counters_or(before, key_hash, fresh),
        requests_per_minute,
        max_concurrency,
        now,
    );
    &&& after == before.insert(key_hash, counters)
    &&& match r {
        Ok(enforcement) => came_of_it == Ok::<bool, ErrorView>(enforcement.in_flight_reserved),
        Err(error) => came_of_it == Err::<bool, ErrorView>(error.deep_view()),
    }
}

/// The counters of a key when one of its requests has finished.
pub open spec fn released(counters: KeyLimiterCounters) -> KeyLimiterCounters {
    KeyLimiterCounters { in_flight: counters.in_flight.saturating_sub(1), ..counters }
}

/// Decrement in-flight counter for a key after request completion.
pub fn decrement_in_flight(state: &mut CounterTable, key_hash: &str)
    ensures
        final(state)@ == (if old(state)@.dom().contains(key_hash@) {
            old(state)@.insert(key_hash@, released(old(state)@[key_hash@]))
        } else {
            old(state)@
        }),
{
    if let Some(counters) = state.get(key_hash) {
        let counters = KeyLimiterCounters {
            in_flight: counters.in_flight.saturating_sub(1),
            rate: counters.rate,
        };
        state.set(key_hash, counters);
    }
}

/// The refusal of a request over the rate of a client address.
pub open spec fn ip_rate_error() -> ErrorView {
    error_of(ErrorKind::RateLimited, "IP request rate limit exceeded"@)
}

/// The counters of an address that has none yet.
pub open spec fn no_requests() -> KeyLimiterCounters {
    KeyLimiterCounters {
        in_flight: 0,
        rate: KeyRateLimitState { window_started_at_secs: 0, request_count: 0 },
    }
}

/// Whether the rate limit of an address was enforced as of `now`. Without a
/// limit nothing is counted, and with a limit of zero nothing is either.
pub open spec fn ip_limit_enforced(
    before: Map<Seq<char>, KeyLimiterCounters>,
    after: Map<Seq<char>, KeyLimiterCounters>,
    ip_identity: Seq<char>,
    requests_per_minute: Option<u32>,
    now: u64,
    r: Result<(), Error>,
) -> bool {
    match requests_per_minute {
        None => r is Ok && after == before,
        Some(limit) => {
            let counters = counters_or(before, ip_identity, no_requests());
            let (rate, within) = count_request(counters.rate, limit, now);
            &&& after == (if limit == 0 {
                before
            } else {
                before.insert(ip_identity, KeyLimiterCounters { rate, ..counters })
            })
            &&& match r {
                Ok(_) => within,
                Err(error) => !within && error.deep_view() == ip_rate_error(),
            }
        },
    }
}

/// Enforces the rate limit of a client address for a request at `now_secs`.
pub fn enforce_ip_rate_limit_at(
    state: &mut CounterTable,
    ip_identity: &str,
    requests_per_minute: Option<u32>,
    now_secs: u64,
) -> (r: Result<(), Error>)
    ensures
        ip_limit_enforced(
            old(state)@,
            final(state)@,
            ip_identity@,
            requests_per_minute,
            now_secs,
            r,
        ),
{
    let limit: u32 = match requests_per_minute {
        Some(limit) => limit,
        None => {
            return Ok(());
        },
    };
    if limit == 0 {
        return Err(Error::new(ErrorKind::RateLimited, "IP request rate limit exceeded"));
    }
    let mut counters: KeyLimiterCounters = match state.get(ip_identity) {
        Some(counters) => counters,
        None => KeyLimiterCounters {
            in_flight: 0,
            rate: KeyRateLimitState { window_started_at_secs: 0, request_count: 0 },
        },
    };
    let mut rate: KeyRateLimitState = counters.rate;
    let within = take_request(&mut rate, limit, now_secs);
    counters.rate = rate;
    state.set(ip_identity, counters);
    if within {
        Ok(())
    } else {
        Err(Error::new(ErrorKind::RateLimited, "IP request rate limit exceeded"))
    }
}

/// Enforce per-IP request rate limit (requests per minute).
pub fn enforce_ip_rate_limit(
    state: &mut CounterTable,
    ip_identity: &str,
    requests_per_minute: Option<u32>,
) -> (r: Result<(), Error>)
    ensures
        exists|now: u64| #[trigger]
            ip_limit_enforced(
                old(state)@,
                final(state)@,
                ip_identity@,
                requests_per_minute,
                now,
                r,
            ) && is_unix_now(now),
{
    let now_secs: u64 = current_unix_secs();
    let r = enforce_ip_rate_limit_at(state, ip_identity, requests_per_minute, now_secs);
    assert(ip_limit_enforced(
        old(state)@,
        state@,
        ip_identity@,
        requests_per_minute,
        now_secs,
        r,
    ));
    r
}

/// The end of a request gives back the slot that its admission reserved.
pub proof fn release_undoes_reservation(
    counters: KeyLimiterCounters,
    requests_per_minute: Option<u32>,
    max_concurrency: Option<u32>,
    now: u64,
)
    ensures
        ({
            let (after, came_of_it) = admission(counters, requests_per_minute, max_concurrency, now);
            came_of_it == Ok::<bool, ErrorView>(true) ==> released(after).in_flight
                == counters.in_flight && released(after).rate == after.rate
        }),
{
}

/// A request that is not admitted, or that is admitted without a slot, leaves
/// the requests under way as they were.
pub proof fn unreserved_request_takes_no_slot(
    counters: KeyLimiterCounters,
    requests_per_minute: Option<u32>,
    max_concurrency: Option<u32>,
    now: u64,
)
    ensures
        ({
            let (after, came_of_it) = admission(counters, requests_per_minute, max_concurrency, now);
            came_of_it != Ok::<bool, ErrorView>(true) ==> after.in_flight == counters.in_flight
        }),
{
}

/// An admitted request never takes a key over its limits: not over its rate
/// within the window, and not over its concurrency.
pub proof fn admission_keeps_limits(
    counters: KeyLimiterCounters,
    requests_per_minute: Option<u32>,
    max_concurrency: Option<u32>,
    now: u64,
)
    ensures
        ({
            let (after, came_of_it) = admission(counters, requests_per_minute, max_concurrency, now);
            came_of_it is Ok ==> {
                &&& requests_per_minute matches Some(limit) ==> after.rate.request_count <= limit
                &&& max_concurrency matches Some(limit) ==> after.in_flight <= limit
            }
        }),
{
}

/// The window after requests at these times, and how many of them were within
/// the rate.
pub open spec fn count_all(rate: KeyRateLimitState, limit: u32, times: Seq<u64>) -> (
    KeyRateLimitState,
    nat,
)
    decreases times.len(),
{
    if times.len() == 0 {
        (rate, 0)
    } else {
        let (front, admitted) = count_all(rate, limit, times.drop_last());
        let (after, within) = count_request(front, limit, times.last());
        (
            after,
            if within {
                admitted + 1
            } else {
                admitted
            },
        )
    }
}

/// Of all requests within one minute of a window's beginning no more are
/// admitted than the rate allows, however many there are.
pub proof fn rate_holds_within_window(rate: KeyRateLimitState, limit: u32, times: Seq<u64>)
    requires
        rate.request_count == 0,
        forall|i: int|
            0 <= i < times.len() ==> (#[trigger] times[i]).saturating_sub(
                rate.window_started_at_secs,
            ) < 60,
    ensures
        count_all(rate, limit, times).1 <= limit,
        count_all(rate, limit, times).0.window_started_at_secs == rate.window_started_at_secs,
        count_all(rate, limit, times).0.request_count == count_all(rate, limit, times).1,
    decreases times.len(),
{
    if times.len() > 0 {
        let front = times.drop_last();
        assert forall|i: int| 0 <= i < front.len() implies (#[trigger] front[i]).saturating_sub(
            rate.window_started_at_secs,
        ) < 60 by {
            assert(front[i] == times[i]);
        }
        rate_holds_within_window(rate, limit, front);
        assert(times[times.len() - 1].saturating_sub(rate.window_started_at_secs) < 60);
    }
}

/// Of one more requests than its rate allows, all less than a minute after the
/// first, an address that was not counted yet has all admitted but the last. The
/// requests of other addresses may stand between them. Its first window begins at
/// the epoch if the first request comes within a minute of it, and ends a minute
/// after; requests on both sides of that end are left out.
pub proof fn fresh_address_gets_its_rate(
    ip_identity: Seq<char>,
    limit: u32,
    times: Seq<u64>,
    befores: Seq<Map<Seq<char>, KeyLimiterCounters>>,
    afters: Seq<Map<Seq<char>, KeyLimiterCounters>>,
    results: Seq<Result<(), Error>>,
)
    requires
        times.len() == limit + 1,
        befores.len() == times.len() && afters.len() == times.len(),
        results.len() == times.len(),
        !befores[0].dom().contains(ip_identity),
        forall|i: int|
            0 <= i < times.len() ==> #[trigger] ip_limit_enforced(
                befores[i],
                afters[i],
                ip_identity,
                Some(limit),
                times[i],
                results[i],
            ),
        forall|i: int|
            0 < i < times.len() ==> counters_or(
                #[trigger] befores[i],
                ip_identity,
                no_requests(),
            ) == counters_or(afters[i - 1], ip_identity, no_requests()),
        forall|i: int|
            0 <= i < times.len() ==> (#[trigger] times[i]).saturating_sub(times[0]) < 60,
        limit == 0 || times[0] >= 60 || forall|i: int|
            0 <= i < times.len() ==> #[trigger] times[i] < 60,
    ensures
        forall|i: int| 0 <= i < limit ==> #[trigger] results[i] is Ok,
        results[limit as int] matches Err(error) && error.kind == ErrorKind::RateLimited,
{
    assert forall|i: int| 0 <= i < limit implies #[trigger] results[i] is Ok by {
        lemma_counted_so_far(ip_identity, limit, times, befores, afters, results, i);
    }
    lemma_counted_so_far(
        ip_identity,
        limit,
        times,
        befores,
        afters,
        results,
        limit as int,
    );
}

proof fn lemma_counted_so_far(
    ip_identity: Seq<char>,
    limit: u32,
    times: Seq<u64>,
    befores: Seq<Map<Seq<char>, KeyLimiterCounters>>,
    afters: Seq<Map<Seq<char>, KeyLimiterCounters>>,
    results: Seq<Result<(), Error>>,
    k: int,
)
    requires
        0 <= k <= limit,
        times.len() == limit + 1,
        befores.len() == times.len() && afters.len() == times.len(),
        results.len() == times.len(),
        !befores[0].dom().contains(ip_identity),
        forall|i: int|
            0 <= i < times.len() ==> #[trigger] ip_limit_enforced(
                befores[i],
                afters[i],
                ip_identity,
                Some(limit),
                times[i],
                results[i],
            ),
        forall|i: int|
            0 < i < times.len() ==> counters_or(
                #[trigger] befores[i],
                ip_identity,
                no_requests(),
            ) == counters_or(afters[i - 1], ip_identity, no_requests()),
        forall|i: int|
            0 <= i < times.len() ==> (#[trigger] times[i]).saturating_sub(times[0]) < 60,
        limit == 0 || times[0] >= 60 || forall|i: int|
            0 <= i < times.len() ==> #[trigger] times[i] < 60,
    ensures
        results[k] is Ok <==> k < limit,
        results[k] matches Err(error) ==> error.kind == ErrorKind::RateLimited,
        limit > 0 ==> {
            let rate = counters_or(afters[k], ip_identity, no_requests()).rate;
            &&& rate.window_started_at_secs == (if times[0] >= 60 {
                times[0]
            } else {
                0
            })
            &&& k < limit ==> rate.request_count == k + 1
        },
    decreases k,
{
    assert(ip_limit_enforced(
        befores[k],
        afters[k],
        ip_identity,
        Some(limit),
        times[k],
        results[k],
    ));
    if k > 0 {
        lemma_counted_so_far(ip_identity, limit, times, befores, afters, results, k - 1);
        assert(counters_or(befores[k], ip_identity, no_requests()) == counters_or(
            afters[k - 1],
            ip_identity,
            no_requests(),
        ));
    }
    assert(times[k].saturating_sub(times[0]) < 60);
}

/// A request counts against the window that it falls in: within a minute of its
/// beginning that is the same window, and from then on a new one that begins with the
/// request. It is within the rate just where fewer than the limit were counted there,
/// and only then is it counted.
pub proof fn requests_count_against_their_window(rate: KeyRateLimitState, limit: u32, now: u64)
    ensures
        ({
            let (after, within) = count_request(rate, limit, now);
            let same = now < rate.window_started_at_secs + 60;
            &&& same ==> (within <==> rate.request_count < limit)
            &&& !same ==> (within <==> limit > 0)
            &&& within && same ==> after.window_started_at_secs == rate.window_started_at_secs
                && after.request_count == rate.request_count + 1
            &&& within && !same ==> after.window_started_at_secs == now && after.request_count == 1
            &&& !within && same ==> after == rate
            &&& limit == 0 ==> after == rate
        }),
{
}

/// A request with a key is admitted just where it is within the rate and a slot is
/// free; a limit that is not set binds nothing. A slot is taken just where concurrency
/// is limited, and then one. A request that is refused for its rate takes nothing, and
/// one that is refused for want of a slot has still been counted.
pub proof fn admission_needs_rate_and_slot(
    counters: KeyLimiterCounters,
    requests_per_minute: Option<u32>,
    max_concurrency: Option<u32>,
    now: u64,
)
    ensures
        ({
            let (after, came_of_it) = admission(counters, requests_per_minute, max_concurrency, now);
            let within = requests_per_minute matches Some(limit) ==> count_request(
                counters.rate,
                limit,
                now,
            ).1;
            let free = max_concurrency matches Some(limit) ==> counters.in_flight < limit;
            &&& came_of_it is Ok <==> within && free
            &&& came_of_it matches Ok(reserved) ==> {
                &&& reserved <==> max_concurrency is Some
                &&& after.in_flight == counters.in_flight + if reserved {
                    1int
                } else {
                    0int
                }
            }
            &&& came_of_it matches Err(error) ==> error.kind == ErrorKind::RateLimited && (error
                == key_rate_error() <==> !within)
            &&& after.rate == match requests_per_minute {
                Some(limit) => count_request(counters.rate, limit, now).0,
                None => counters.rate,
            }
        }),
{
    reveal_strlit("Relay key request rate limit exceeded");
    reveal_strlit("Relay key concurrency limit exceeded");
    assert(key_rate_error().message.len() != key_concurrency_error().message.len());
}

/// A finished request gives one slot back, and never more than were taken; the counts
/// of the rate stay as they are.
pub proof fn finished_request_frees_one_slot(counters: KeyLimiterCounters)
    ensures
        counters.in_flight > 0 ==> released(counters).in_flight == counters.in_flight - 1,
        counters.in_flight == 0 ==> released(counters).in_flight == 0,
        released(counters).rate == counters.rate,
{
}

/// The limits of a key touch the counters of that key alone, and those of an address
/// the counters of that address; a key without counters starts with none under way and
/// none counted.
pub proof fn limits_touch_their_own_counters(
    before: Map<Seq<char>, KeyLimiterCounters>,
    after: Map<Seq<char>, KeyLimiterCounters>,
    key: Seq<char>,
    other: Seq<char>,
    requests_per_minute: Option<u32>,
    max_concurrency: Option<u32>,
    now: u64,
    began: u64,
    enforced: Result<LimitEnforcement, Error>,
    checked: Result<(), Error>,
)
    requires
        other != key,
    ensures
        key_limits_enforced(
            before,
            after,
            key,
            requests_per_minute,
            max_concurrency,
            now,
            began,
            enforced,
        ) || ip_limit_enforced(before, after, key, requests_per_minute, now, checked) ==> {
            &&& after.dom().contains(other) == before.dom().contains(other)
            &&& after[other] == before[other]
        },
        key_limits_enforced(
            before,
            after,
            key,
            requests_per_minute,
            max_concurrency,
            now,
            began,
            enforced,
        ) && !before.dom().contains(key) && enforced is Ok ==> after[key].in_flight
            == if max_concurrency is Some {
            1int
        } else {
            0int
        },
        ip_limit_enforced(before, after, key, None, now, checked) ==> checked is Ok && after
            == before,
        ip_limit_enforced(before, after, key, Some(0), now, checked) ==> checked is Err && after
            == before,
{
}

/// Before the first request nothing is counted and nothing is under way.
pub proof fn nothing_is_counted_at_first(key: Seq<char>)
    ensures
        !empty_table().dom().contains(key),
        no_requests().in_flight == 0,
        no_requests().rate.request_count == 0,
        no_requests().rate.window_started_at_secs == 0,
        ip_rate_error().kind == ErrorKind::RateLimited,
{
}

} // verus!
