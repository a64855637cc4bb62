use modelwire_server::error::ErrorKind;
use modelwire_server::request_limiter::{
    decrement_in_flight, enforce_ip_rate_limit, enforce_ip_rate_limit_at, enforce_key_limits,
    enforce_key_limits_at, CounterTable,
};
use modelwire_server::{
    current_unix_secs, seconds_or_zero, KeyLimiterCounters, KeyRateLimitState,
};

fn fresh(now: u64) -> KeyLimiterCounters {
    KeyLimiterCounters {
        in_flight: 0,
        rate: KeyRateLimitState { window_started_at_secs: now, request_count: 0 },
    }
}

#[test]
fn rate_is_limited_within_a_window() {
    let mut table = CounterTable::new();
    for now in [100, 120, 159] {
        enforce_key_limits_at(&mut table, "k", Some(3), None, now, fresh(100)).unwrap();
    }
    let error =
        enforce_key_limits_at(&mut table, "k", Some(3), None, 159, fresh(100)).unwrap_err();
    assert_eq!(error.kind, ErrorKind::RateLimited);
    assert_eq!(error.message, "Relay key request rate limit exceeded");
    let admitted = enforce_key_limits_at(&mut table, "k", Some(3), None, 160, fresh(100)).unwrap();
    assert!(!admitted.in_flight_reserved);
    let counters = table.get("k").unwrap();
    assert_eq!(counters.rate.window_started_at_secs, 160);
    assert_eq!(counters.rate.request_count, 1);
    assert_eq!(counters.in_flight, 0);
}

#[test]
fn slots_are_taken_and_given_back() {
    let mut table = CounterTable::new();
    let one = enforce_key_limits_at(&mut table, "k", None, Some(2), 5, fresh(5)).unwrap();
    assert!(one.in_flight_reserved);
    enforce_key_limits_at(&mut table, "k", None, Some(2), 5, fresh(5)).unwrap();
    let error = enforce_key_limits_at(&mut table, "k", None, Some(2), 5, fresh(5)).unwrap_err();
    assert_eq!(error.message, "Relay key concurrency limit exceeded");
    decrement_in_flight(&mut table, "k");
    assert_eq!(table.get("k").unwrap().in_flight, 1);
    decrement_in_flight(&mut table, "k");
    decrement_in_flight(&mut table, "k");
    assert_eq!(table.get("k").unwrap().in_flight, 0);
    decrement_in_flight(&mut table, "unknown");
    assert!(table.get("unknown").is_none());
}

#[test]
fn refused_concurrency_still_counts_as_a_request() {
    let mut table = CounterTable::new();
    let error =
        enforce_key_limits_at(&mut table, "k", Some(9), Some(0), 5, fresh(5)).unwrap_err();
    assert_eq!(error.message, "Relay key concurrency limit exceeded");
    assert_eq!(table.get("k").unwrap().rate.request_count, 1);
    let error = enforce_key_limits_at(&mut table, "z", Some(0), Some(1), 5, fresh(5)).unwrap_err();
    assert_eq!(error.message, "Relay key request rate limit exceeded");
    assert_eq!(table.get("z").unwrap().rate.request_count, 0);
    assert_eq!(table.get("z").unwrap().in_flight, 0);
}

#[test]
fn keys_do_not_share_counters() {
    let mut table = CounterTable::new();
    enforce_key_limits(&mut table, "a", Some(1), Some(1)).unwrap();
    enforce_key_limits(&mut table, "b", Some(1), Some(1)).unwrap();
    assert!(enforce_key_limits(&mut table, "a", Some(1), Some(1)).is_err());
    let unlimited = enforce_key_limits(&mut table, "c", None, None).unwrap();
    assert!(!unlimited.in_flight_reserved);
}

#[test]
fn addresses_are_limited_by_minute() {
    let mut table = CounterTable::new();
    assert!(enforce_ip_rate_limit_at(&mut table, "ip", None, 70).is_ok());
    assert!(table.get("ip").is_none());
    assert!(enforce_ip_rate_limit_at(&mut table, "ip", Some(1), 70).is_ok());
    let error = enforce_ip_rate_limit_at(&mut table, "ip", Some(1), 129).unwrap_err();
    assert_eq!(error.kind, ErrorKind::RateLimited);
    assert_eq!(error.message, "IP request rate limit exceeded");
    assert!(enforce_ip_rate_limit_at(&mut table, "ip", Some(1), 130).is_ok());
    assert!(enforce_ip_rate_limit(&mut table, "other", Some(0)).is_err());
    assert!(enforce_ip_rate_limit(&mut table, "other", Some(5)).is_ok());
}

#[test]
fn clock_is_past_the_year_of_writing() {
    let now = current_unix_secs();
    assert!(now > 1_700_000_000);
    assert_eq!((seconds_or_zero(Some(3)), seconds_or_zero(None)), (3, 0));
    let counters = KeyLimiterCounters::default();
    assert!(counters.rate.window_started_at_secs >= now);
    assert_eq!(counters.in_flight, 0);
    assert_eq!(counters.rate.request_count, 0);
    let rate = KeyRateLimitState::default();
    assert_eq!(rate.window_started_at_secs, 0);
    assert_eq!(rate.request_count, 0);
}

#[test]
fn new_address_is_admitted_up_to_its_rate() {
    let mut table = CounterTable::new();
    for now in [1000, 1030, 1059] {
        assert!(enforce_ip_rate_limit_at(&mut table, "ip", Some(3), now).is_ok());
        assert!(enforce_ip_rate_limit_at(&mut table, "other", Some(9), now).is_ok());
    }
    let error = enforce_ip_rate_limit_at(&mut table, "ip", Some(3), 1059).unwrap_err();
    assert_eq!(error.kind, ErrorKind::RateLimited);
    assert!(enforce_ip_rate_limit_at(&mut table, "new", Some(0), 1000).is_err());
    assert!(enforce_ip_rate_limit_at(&mut table, "new", None, 1000).is_ok());
    assert!(table.get("new").is_none());
}

#[test]
fn new_counters_begin_now() {
    let before = current_unix_secs();
    let counters = KeyLimiterCounters::default();
    assert!(counters.rate.window_started_at_secs >= before);
    assert!(counters.rate.window_started_at_secs <= current_unix_secs());
}
