//! Finding out which protocol an upstream speaks: from the configuration, from
//! what was found before, or by trying the protocols one after the other.

use crate::canonical::{wire_api_named, WireApi};
use crate::clock::{is_clock_second, parse_db_timestamp_to_unix, rfc3339_time, unix_now};
use crate::error::{error_of, outcome, Error, ErrorKind, ErrorView};
use crate::json::{
    add_member, lemma_holds, no_members, object_of, text_value, Json, JsonView,
};
use crate::relay::context::{ResolvedTargetProtocol, ResolvedView};
use crate::relay::target::{SnapshotView, TargetSnapshot};
use crate::relay::upstream::{
    join_url, joined_url, map_reqwest_error, redacted_upstream_error, shown_message, status_kind,
    transport_error,
};
use crate::store::stored;
use crate::text::{
    contains, contains_text, copy_opt, join2, join5, lower_case, same, text_of_bytes, to_lowercase,
};
use vstd::prelude::*;

verus! {

/// What was found out about an upstream.
#[derive(Debug)]
pub struct ProbeResult {
    pub provider_id: String,
    pub credential_hash: String,
    pub upstream_model: String,
    pub wire_api: WireApi,
    pub supports_streaming: bool,
    pub supports_tools: bool,
    pub supports_parallel_tool_calls: bool,
    pub tool_support_known: bool,
    pub supports_previous_response_id: bool,
    pub supports_reasoning_encrypted_content: bool,
    pub supports_reasoning_summary: bool,
    pub last_success_at: Option<i64>,
    pub last_failure_at: Option<i64>,
    pub failure_kind: Option<String>,
    pub failure_message_redacted: Option<String>,
    pub expires_at: i64,
}

/// The mathematical value of a [`ProbeResult`].
#[verifier::ext_equal]
pub struct ProbeView {
    pub provider_id: Seq<char>,
    pub credential_hash: Seq<char>,
    pub upstream_model: Seq<char>,
    pub wire_api: WireApi,
    pub supports_streaming: bool,
    pub supports_tools: bool,
    pub supports_parallel_tool_calls: bool,
    pub tool_support_known: bool,
    pub supports_previous_response_id: bool,
    pub supports_reasoning_encrypted_content: bool,
    pub supports_reasoning_summary: bool,
    pub last_success_at: Option<i64>,
    pub last_failure_at: Option<i64>,
    pub failure_kind: Option<Seq<char>>,
    pub failure_message_redacted: Option<Seq<char>>,
    pub expires_at: i64,
}

impl DeepView for ProbeResult {
    type V = ProbeView;

    open spec fn deep_view(&self) -> ProbeView {
        ProbeView {
            provider_id: self.provider_id@,
            credential_hash: self.credential_hash@,
            upstream_model: self.upstream_model@,
            wire_api: self.wire_api,
            supports_streaming: self.supports_streaming,
            supports_tools: self.supports_tools,
            supports_parallel_tool_calls: self.supports_parallel_tool_calls,
            tool_support_known: self.tool_support_known,
            supports_previous_response_id: self.supports_previous_response_id,
            supports_reasoning_encrypted_content: self.supports_reasoning_encrypted_content,
            supports_reasoning_summary: self.supports_reasoning_summary,
            last_success_at: self.last_success_at,
            last_failure_at: self.last_failure_at,
            failure_kind: self.failure_kind.deep_view(),
            failure_message_redacted: self.failure_message_redacted.deep_view(),
            expires_at: self.expires_at,
        }
    }
}

impl Clone for ProbeResult {
    fn clone(&self) -> (r: Self)
        ensures
            r.deep_view() == self.deep_view(),
    {
        ProbeResult {
            provider_id: self.provider_id.clone(),
            credential_hash: self.credential_hash.clone(),
            upstream_model: self.upstream_model.clone(),
            wire_api: self.wire_api,
            supports_streaming: self.supports_streaming,
            supports_tools: self.supports_tools,
            supports_parallel_tool_calls: self.supports_parallel_tool_calls,
            tool_support_known: self.tool_support_known,
            supports_previous_response_id: self.supports_previous_response_id,
            supports_reasoning_encrypted_content: self.supports_reasoning_encrypted_content,
            supports_reasoning_summary: self.supports_reasoning_summary,
            last_success_at: self.last_success_at,
            last_failure_at: self.last_failure_at,
            failure_kind: copy_opt(&self.failure_kind),
            failure_message_redacted: copy_opt(&self.failure_message_redacted),
            expires_at: self.expires_at,
        }
    }
}

/// The results that a map holds, by key.
pub uninterp spec fn probes_in(
    map: dashmap::DashMap<String, ProbeResult>,
) -> Map<Seq<char>, ProbeView>;

/// No results.
pub open spec fn empty_cache() -> Map<Seq<char>, ProbeView> {
    Map::empty()
}

/// `DashMap::new`: a map that holds nothing.
#[verifier::external_body]
fn no_probes() -> (r: dashmap::DashMap<String, ProbeResult>)
    ensures
        probes_in(r) == empty_cache(),
{
    dashmap::DashMap::new()
}

/// `DashMap::get`: what the map holds for the key, as a copy.
#[verifier::external_body]
fn get_probe(map: &dashmap::DashMap<String, ProbeResult>, key: &str) -> (r: Option<ProbeResult>)
    ensures
        r.deep_view() == (if probes_in(*map).dom().contains(key@) {
            Some(probes_in(*map)[key@])
        } else {
            None
        }),
{
    map.get(key).map(|entry| entry.value().clone())
}

/// `DashMap::insert`: the map holds the value for the key, in place of what it
/// held before.
#[verifier::external_body]
fn set_probe(map: &mut dashmap::DashMap<String, ProbeResult>, key: &str, probe: ProbeResult)
    ensures
        probes_in(*final(map)) == probes_in(*old(map)).insert(key@, probe.deep_view()),
{
    map.insert(key.to_string(), probe);
}

/// `DashMap::remove`: the map holds nothing for the key any more.
#[verifier::external_body]
fn remove_probe(map: &mut dashmap::DashMap<String, ProbeResult>, key: &str)
    ensures
        probes_in(*final(map)) == probes_in(*old(map)).remove(key@),
{
    map.remove(key);
}

/// `DashMap::clear`: the map holds nothing any more.
#[verifier::external_body]
fn clear_probes(map: &mut dashmap::DashMap<String, ProbeResult>)
    ensures
        probes_in(*final(map)) == empty_cache(),
{
    map.clear();
}

/// Whether entries are those of a table, each of them once.
pub open spec fn lists_all(
    entries: Seq<(Seq<char>, ProbeView)>,
    table: Map<Seq<char>, ProbeView>,
) -> bool {
    &&& forall|i: int|
        0 <= i < entries.len() ==> table.dom().contains((#[trigger] entries[i]).0)
            && table[entries[i].0] == entries[i].1
    &&& forall|i: int, j: int|
        0 <= i < j < entries.len() ==> (#[trigger] entries[i]).0 != (#[trigger] entries[j]).0
    &&& forall|key: Seq<char>| #[trigger]
        table.dom().contains(key) ==> exists|i: int|
            0 <= i < entries.len() && (#[trigger] entries[i]).0 == key
}

/// `DashMap::iter`: the entries of the map, as copies, in an order of which
/// nothing is stated.
#[verifier::external_body]
fn probe_entries(map: &dashmap::DashMap<String, ProbeResult>) -> (r: Vec<(String, ProbeResult)>)
    ensures
        lists_all(r.deep_view(), probes_in(*map)),
{
    map.iter().map(|entry| (entry.key().clone(), entry.value().clone())).collect()
}

/// `DashMap::len`: how many entries the map holds.
#[verifier::external_body]
fn probe_count(map: &dashmap::DashMap<String, ProbeResult>) -> (r: usize)
    ensures
        r == probes_in(*map).dom().len(),
{
    map.len()
}

/// What was found out about upstreams, by cache key.
pub struct ProbeCache {
    entries: dashmap::DashMap<String, ProbeResult>,
}

impl View for ProbeCache {
    type V = Map<Seq<char>, ProbeView>;

    closed spec fn view(&self) -> Map<Seq<char>, ProbeView> {
        probes_in(self.entries)
    }
}

/// The result for a key that is still good at `now`.
pub open spec fn live_probe(
    cache: Map<Seq<char>, ProbeView>,
    key: Seq<char>,
    now: i64,
) -> Option<ProbeView> {
    if cache.dom().contains(key) && cache[key].expires_at > now {
        Some(cache[key])
    } else {
        None
    }
}

/// The cache after the protocol that is forced on a target was noted at `now`, and
/// the result where it is new: one that is not there yet, is no longer good or
/// tells of another protocol is replaced.
pub open spec fn forced_probe_noted(
    cache: Map<Seq<char>, ProbeView>,
    target: SnapshotView,
    credential_hash: Seq<char>,
    wire_api: WireApi,
    now: i64,
) -> (Map<Seq<char>, ProbeView>, Option<ProbeView>) {
    let key = cache_key_of(target.provider_id, credential_hash, target.upstream_model);
    let known = live_probe(cache, key, now) matches Some(probe) && probe.wire_api == wire_api;
    let probe = plain_probe(target, credential_hash, wire_api, now);
    if known {
        (cache, None)
    } else {
        (cache.insert(key, probe), Some(probe))
    }
}

impl ProbeCache {
    /// An empty cache.
    pub fn new() -> (r: ProbeCache)
        ensures
            r@ == empty_cache(),
    {
        ProbeCache { entries: no_probes() }
    }

    /// The result for a key that is still good at `now`. One that is not is
    /// forgotten.
    pub fn load_probe_from_memory_cache_at(&mut self, cache_key: &str, now: i64) -> (r: Option<
        ProbeResult,
    >)
        ensures
            r.deep_view() == live_probe(old(self)@, cache_key@, now),
            final(self)@ == (if r is Some {
                old(self)@
            } else {
                old(self)@.remove(cache_key@)
            }),
    {
        if let Some(probe) = get_probe(&self.entries, cache_key) {
            if probe.expires_at > now {
                return Some(probe);
            }
            remove_probe(&mut self.entries, cache_key);
            return None;
        }
        assert(self@.remove(cache_key@) =~= self@);
        None
    }

    /// The result for a key that is still good now.
    pub fn load_probe_from_memory_cache(&mut self, cache_key: &str) -> (r: Option<ProbeResult>)
        ensures
            exists|now: i64| #[trigger]
                live_probe(old(self)@, cache_key@, now) == r.deep_view() && is_clock_second(now),
            final(self)@ == (if r is Some {
                old(self)@
            } else {
                old(self)@.remove(cache_key@)
            }),
    {
        let now: i64 = unix_now();
        let r = self.load_probe_from_memory_cache_at(cache_key, now);
        assert(live_probe(old(self)@, cache_key@, now) == r.deep_view());
        r
    }

    /// Keeps a result under a key.
    pub fn remember_probe(&mut self, cache_key: &str, probe: &ProbeResult)
        ensures
            final(self)@ == old(self)@.insert(cache_key@, probe.deep_view()),
    {
        set_probe(&mut self.entries, cache_key, probe.clone());
    }

    /// All results with their keys, in no particular order.
    pub fn entries(&self) -> (r: Vec<(String, ProbeResult)>)
        ensures
            lists_all(r.deep_view(), self@),
    {
        probe_entries(&self.entries)
    }

    /// How many results there are.
    pub fn len(&self) -> (r: usize)
        ensures
            r == self@.dom().len(),
    {
        probe_count(&self.entries)
    }

    /// Forgets all results.
    pub fn clear(&mut self)
        ensures
            final(self)@ == empty_cache(),
    {
        clear_probes(&mut self.entries);
    }

    /// Notes the protocol that is forced on a target, so that it is seen among
    /// the results: a result that is not there yet, is no longer good or tells
    /// of another protocol is replaced. Gives the result where it is new.
    pub fn remember_forced_probe_visibility_at(
        &mut self,
        target: &TargetSnapshot,
        credential_hash: &str,
        wire_api: WireApi,
        now: i64,
    ) -> (r: Option<ProbeResult>)
        requires
            now <= i64::MAX - 3600,
        ensures
            (final(self)@, r.deep_view()) == forced_probe_noted(
                old(self)@,
                target.deep_view(),
                credential_hash@,
                wire_api,
                now,
            ),
    {
        let cache_key = probe_cache_key(
            target.provider_id.as_str(),
            credential_hash,
            target.upstream_model.as_str(),
        );
        let needs_refresh = match get_probe(&self.entries, cache_key.as_str()) {
            Some(entry) => entry.wire_api != wire_api || entry.expires_at <= now,
            None => true,
        };
        if !needs_refresh {
            return None;
        }
        let probe = new_probe(target, credential_hash, wire_api, now);
        self.remember_probe(cache_key.as_str(), &probe);
        Some(probe)
    }

    /// Notes the protocol that is forced on a target, as of now.
    pub fn remember_forced_probe_visibility(
        &mut self,
        target: &TargetSnapshot,
        credential_hash: &str,
        wire_api: WireApi,
    ) -> (r: Option<ProbeResult>)
        ensures
            exists|now: i64| #[trigger]
                forced_probe_noted(
                    old(self)@,
                    target.deep_view(),
                    credential_hash@,
                    wire_api,
                    now,
                ) == (final(self)@, r.deep_view()) && is_clock_second(now),
    {
        let now: i64 = unix_now();
        let r = self.remember_forced_probe_visibility_at(target, credential_hash, wire_api, now);
        assert(forced_probe_noted(
            old(self)@,
            target.deep_view(),
            credential_hash@,
            wire_api,
            now,
        ) == (self@, r.deep_view()));
        r
    }
}

/// The key under which a result is kept: provider, credential and model with
/// colons between.
pub open spec fn cache_key_of(
    provider_id: Seq<char>,
    credential_hash: Seq<char>,
    upstream_model: Seq<char>,
) -> Seq<char> {
    provider_id + ":"@ + credential_hash + ":"@ + upstream_model
}

/// The key under which a result is kept.
pub fn probe_cache_key(
    provider_id: &str,
    credential_hash: &str,
    upstream_model: &str,
) -> (r: String)
    ensures
        r@ == cache_key_of(provider_id@, credential_hash@, upstream_model@),
{
    join5(provider_id, ":", credential_hash, ":", upstream_model)
}

/// The secret under which a provider's credentials are hashed.
pub fn credential_secret(provider_id: &str) -> (r: String)
    ensures
        r@ == "probe::"@ + provider_id@,
{
    join2("probe::", provider_id)
}

/// The hash that stands for a credential; one word for the lack of any.
pub open spec fn credential_hash_of(upstream_key: Option<Seq<char>>, digest: Seq<char>) -> Seq<
    char,
> {
    if upstream_key is Some {
        digest
    } else {
        "no-key"@
    }
}

/// The hash that stands for a credential. `digest` is the hash of the key, where
/// there is one, under [`credential_secret`].
pub fn credential_hash_for_probe(upstream_key: Option<&str>, digest: &str) -> (r: String)
    ensures
        r@ == credential_hash_of(upstream_key.deep_view(), digest@),
{
    match upstream_key {
        Some(_) => digest.to_owned(),
        None => "no-key".to_owned(),
    }
}

/// A result that tells of the protocol and of nothing else, good for an hour.
pub open spec fn plain_probe(
    target: SnapshotView,
    credential_hash: Seq<char>,
    wire_api: WireApi,
    now: i64,
) -> ProbeView {
    ProbeView {
        provider_id: target.provider_id,
        credential_hash,
        upstream_model: target.upstream_model,
        wire_api,
        supports_streaming: false,
        supports_tools: false,
        supports_parallel_tool_calls: false,
        tool_support_known: false,
        supports_previous_response_id: false,
        supports_reasoning_encrypted_content: false,
        supports_reasoning_summary: false,
        last_success_at: Some(now),
        last_failure_at: None,
        failure_kind: None,
        failure_message_redacted: None,
        expires_at: (now + 3600) as i64,
    }
}

/// A result that tells of the protocol and of nothing else, good for an hour.
pub fn new_probe(
    target: &TargetSnapshot,
    credential_hash: &str,
    wire_api: WireApi,
    now: i64,
) -> (r: ProbeResult)
    requires
        now <= i64::MAX - 3600,
    ensures
        r.deep_view() == plain_probe(target.deep_view(), credential_hash@, wire_api, now),
{
    ProbeResult {
        provider_id: target.provider_id.clone(),
        credential_hash: credential_hash.to_owned(),
        upstream_model: target.upstream_model.clone(),
        wire_api,
        supports_streaming: false,
        supports_tools: false,
        supports_parallel_tool_calls: false,
        tool_support_known: false,
        supports_previous_response_id: false,
        supports_reasoning_encrypted_content: false,
        supports_reasoning_summary: false,
        last_success_at: Some(now),
        last_failure_at: None,
        failure_kind: None,
        failure_message_redacted: None,
        expires_at: now + 3600,
    }
}

/// A stored result.
#[derive(Debug)]
pub struct ProbeRow {
    pub provider_id: String,
    pub credential_hash: String,
    pub upstream_model: String,
    pub wire_api: String,
    pub status: String,
    pub supports_streaming: Option<i64>,
    pub supports_tools: Option<i64>,
    pub supports_parallel_tool_calls: Option<i64>,
    pub supports_previous_response_id: Option<i64>,
    pub supports_reasoning_encrypted_content: Option<i64>,
    pub supports_reasoning_summary: Option<i64>,
    pub last_success_at: Option<String>,
    pub last_failure_at: Option<String>,
    pub failure_kind: Option<String>,
    pub failure_message_redacted: Option<String>,
    pub expires_at: String,
}

/// The mathematical value of a [`ProbeRow`].
#[verifier::ext_equal]
pub struct ProbeRowView {
    pub provider_id: Seq<char>,
    pub credential_hash: Seq<char>,
    pub upstream_model: Seq<char>,
    pub wire_api: Seq<char>,
    pub status: Seq<char>,
    pub supports_streaming: Option<i64>,
    pub supports_tools: Option<i64>,
    pub supports_parallel_tool_calls: Option<i64>,
    pub supports_previous_response_id: Option<i64>,
    pub supports_reasoning_encrypted_content: Option<i64>,
    pub supports_reasoning_summary: Option<i64>,
    pub last_success_at: Option<Seq<char>>,
    pub last_failure_at: Option<Seq<char>>,
    pub failure_kind: Option<Seq<char>>,
    pub failure_message_redacted: Option<Seq<char>>,
    pub expires_at: Seq<char>,
}

impl DeepView for ProbeRow {
    type V = ProbeRowView;

    open spec fn deep_view(&self) -> ProbeRowView {
        ProbeRowView {
            provider_id: self.provider_id@,
            credential_hash: self.credential_hash@,
            upstream_model: self.upstream_model@,
            wire_api: self.wire_api@,
            status: self.status@,
            supports_streaming: self.supports_streaming,
            supports_tools: self.supports_tools,
            supports_parallel_tool_calls: self.supports_parallel_tool_calls,
            supports_previous_response_id: self.supports_previous_response_id,
            supports_reasoning_encrypted_content: self.supports_reasoning_encrypted_content,
            supports_reasoning_summary: self.supports_reasoning_summary,
            last_success_at: self.last_success_at.deep_view(),
            last_failure_at: self.last_failure_at.deep_view(),
            failure_kind: self.failure_kind.deep_view(),
            failure_message_redacted: self.failure_message_redacted.deep_view(),
            expires_at: self.expires_at@,
        }
    }
}

/// Whether a stored flag is set; one that was not stored is not.
pub open spec fn is_set(value: Option<i64>) -> bool {
    value matches Some(n) && n != 0
}

/// Whether a stored flag is set.
pub fn flag_is_set(value: Option<i64>) -> (r: bool)
    ensures
        r == is_set(value),
{
    match value {
        Some(n) => n != 0,
        None => false,
    }
}

/// The time of an optional stored timestamp, where it can be read.
pub open spec fn opt_time(value: Option<Seq<char>>) -> Option<i64> {
    match value {
        Some(text) => rfc3339_time(text),
        None => None,
    }
}

fn opt_timestamp(value: &Option<String>) -> (r: Option<i64>)
    ensures
        r == opt_time(value.deep_view()),
{
    match value {
        Some(text) => parse_db_timestamp_to_unix(text.as_str()),
        None => None,
    }
}

/// The result that a stored row tells of. A row whose time of expiry cannot be
/// read is good for an hour from `now`.
pub open spec fn probe_of_row(
    row: ProbeRowView,
    target: SnapshotView,
    credential_hash: Seq<char>,
    wire_api: WireApi,
    now: i64,
) -> ProbeView {
    ProbeView {
        provider_id: target.provider_id,
        credential_hash,
        upstream_model: target.upstream_model,
        wire_api,
        supports_streaming: is_set(row.supports_streaming),
        supports_tools: is_set(row.supports_tools),
        supports_parallel_tool_calls: is_set(row.supports_parallel_tool_calls),
        tool_support_known: row.supports_tools is Some,
        supports_previous_response_id: is_set(row.supports_previous_response_id),
        supports_reasoning_encrypted_content: is_set(row.supports_reasoning_encrypted_content),
        supports_reasoning_summary: is_set(row.supports_reasoning_summary),
        last_success_at: opt_time(row.last_success_at),
        last_failure_at: opt_time(row.last_failure_at),
        failure_kind: row.failure_kind,
        failure_message_redacted: row.failure_message_redacted,
        expires_at: match rfc3339_time(row.expires_at) {
            Some(time) => time,
            None => (now + 3600) as i64,
        },
    }
}

/// The result that the store tells of, where it tells of a success.
pub open spec fn loaded_probe(
    row: Result<Option<ProbeRowView>, Seq<char>>,
    target: SnapshotView,
    credential_hash: Seq<char>,
    now: i64,
) -> Result<Option<ProbeView>, ErrorView> {
    match row {
        Err(detail) => Err(
            error_of(ErrorKind::InternalError, "Failed to read probe cache: "@ + detail),
        ),
        Ok(None) => Ok(None),
        Ok(Some(row)) => if row.status == "success"@ {
            match wire_api_named(row.wire_api) {
                Some(api) => Ok(Some(probe_of_row(row, target, credential_hash, api, now))),
                None => Err(
                    error_of(
                        ErrorKind::InternalError,
                        "Probe cache contains unknown wire_api"@,
                    ),
                ),
            }
        } else {
            Ok(None)
        },
    }
}

/// The result that the store tells of, where it tells of a success.
pub fn load_probe_from_row_at(
    row: Result<Option<ProbeRow>, String>,
    target: &TargetSnapshot,
    credential_hash: &str,
    now: i64,
) -> (r: Result<Option<ProbeResult>, Error>)
    requires
        now <= i64::MAX - 3600,
    ensures
        outcome(r) == loaded_probe(stored(row), target.deep_view(), credential_hash@, now),
{
    let row = match row {
        Ok(Some(row)) => row,
        Ok(None) => {
            return Ok(None);
        },
        Err(detail) => {
            return Err(
                Error::about(
                    ErrorKind::InternalError,
                    "Failed to read probe cache: ",
                    detail.as_str(),
                ),
            );
        },
    };
    if !same(row.status.as_str(), "success") {
        return Ok(None);
    }
    let wire_api = match WireApi::parse(row.wire_api.as_str()) {
        Some(wire_api) => wire_api,
        None => {
            return Err(
                Error::new(ErrorKind::InternalError, "Probe cache contains unknown wire_api"),
            );
        },
    };
    Ok(
        Some(
            ProbeResult {
                provider_id: target.provider_id.clone(),
                credential_hash: credential_hash.to_owned(),
                upstream_model: target.upstream_model.clone(),
                wire_api,
                supports_streaming: flag_is_set(row.supports_streaming),
                supports_tools: flag_is_set(row.supports_tools),
                supports_parallel_tool_calls: flag_is_set(row.supports_parallel_tool_calls),
                tool_support_known: row.supports_tools.is_some(),
                supports_previous_response_id: flag_is_set(row.supports_previous_response_id),
                supports_reasoning_encrypted_content: flag_is_set(
                    row.supports_reasoning_encrypted_content,
                ),
                supports_reasoning_summary: flag_is_set(row.supports_reasoning_summary),
                last_success_at: opt_timestamp(&row.last_success_at),
                last_failure_at: opt_timestamp(&row.last_failure_at),
                failure_kind: copy_opt(&row.failure_kind),
                failure_message_redacted: copy_opt(&row.failure_message_redacted),
                expires_at: match parse_db_timestamp_to_unix(row.expires_at.as_str()) {
                    Some(time) => time,
                    None => now + 3600,
                },
            },
        ),
    )
}

/// The result that the store tells of now, where it tells of a success; it is
/// kept in the cache as well.
pub fn load_probe_from_db(
    cache: &mut ProbeCache,
    row: Result<Option<ProbeRow>, String>,
    target: &TargetSnapshot,
    credential_hash: &str,
    cache_key: &str,
) -> (r: Result<Option<ProbeResult>, Error>)
    ensures
        exists|now: i64| #[trigger]
            loaded_probe(stored(row), target.deep_view(), credential_hash@, now) == outcome(r)
                && is_clock_second(now),
        final(cache)@ == (match r {
            Ok(Some(probe)) => old(cache)@.insert(cache_key@, probe.deep_view()),
            _ => old(cache)@,
        }),
{
    let now: i64 = unix_now();
    let r = load_probe_from_row_at(row, target, credential_hash, now);
    if let Ok(Some(probe)) = &r {
        cache.remember_probe(cache_key, probe);
    }
    assert(loaded_probe(stored(row), target.deep_view(), credential_hash@, now) == outcome(r));
    r
}

/// A target's protocol as a result tells of it.
pub open spec fn resolved_by(probe: ProbeView, credential_hash: Seq<char>) -> ResolvedView {
    ResolvedView {
        wire_api: probe.wire_api,
        credential_hash,
        tool_support_known: probe.tool_support_known,
        supports_tools: probe.supports_tools,
    }
}

/// A target's protocol as a result tells of it.
pub fn resolve_from_probe(probe: &ProbeResult, credential_hash: &str) -> (r:
    ResolvedTargetProtocol)
    ensures
        r.deep_view() == resolved_by(probe.deep_view(), credential_hash@),
{
    ResolvedTargetProtocol {
        wire_api: probe.wire_api,
        credential_hash: credential_hash.to_owned(),
        tool_support_known: probe.tool_support_known,
        supports_tools: probe.supports_tools,
    }
}

/// A target's protocol where it is configured.
pub open spec fn resolved_by_config(
    target: SnapshotView,
    credential_hash: Seq<char>,
) -> Option<ResolvedView> {
    if target.configured_wire_api == WireApi::Auto {
        None
    } else {
        Some(
            ResolvedView {
                wire_api: target.configured_wire_api,
                credential_hash,
                tool_support_known: false,
                supports_tools: false,
            },
        )
    }
}

/// A target's protocol where it is configured.
pub fn resolve_from_config(target: &TargetSnapshot, credential_hash: &str) -> (r: Option<
    ResolvedTargetProtocol,
>)
    ensures
        r.deep_view() == resolved_by_config(target.deep_view(), credential_hash@),
{
    if target.configured_wire_api == WireApi::Auto {
        return None;
    }
    Some(
        ResolvedTargetProtocol {
            wire_api: target.configured_wire_api,
            credential_hash: credential_hash.to_owned(),
            tool_support_known: false,
            supports_tools: false,
        },
    )
}

/// What is to be done to find a target's protocol.
#[derive(Debug, Clone, Copy, PartialEq, Eq, Structural)]
pub enum ResolveStep {
    /// Use the configured protocol.
    UseConfigured,
    /// Look into the cache.
    LookInCache,
    /// Look into the store.
    LookInStore,
    /// Wait until no other request probes the same target.
    Lock,
    /// Look into the cache again, as another request may have filled it.
    LookInCacheAgain,
    /// Look into the store again.
    LookInStoreAgain,
    /// Probe, under the lock.
    Probe,
    /// Use what was found.
    UseFound,
}

/// The first step for a target.
pub open spec fn first_resolve_step(configured: WireApi) -> ResolveStep {
    if configured == WireApi::Auto {
        ResolveStep::LookInCache
    } else {
        ResolveStep::UseConfigured
    }
}

/// The step after a step that found something or did not.
pub open spec fn next_resolve_step(step: ResolveStep, found: bool) -> ResolveStep {
    match step {
        ResolveStep::LookInCache => if found {
            ResolveStep::UseFound
        } else {
            ResolveStep::LookInStore
        },
        ResolveStep::LookInStore => if found {
            ResolveStep::UseFound
        } else {
            ResolveStep::Lock
        },
        ResolveStep::Lock => ResolveStep::LookInCacheAgain,
        ResolveStep::LookInCacheAgain => if found {
            ResolveStep::UseFound
        } else {
            ResolveStep::LookInStoreAgain
        },
        ResolveStep::LookInStoreAgain => if found {
            ResolveStep::UseFound
        } else {
            ResolveStep::Probe
        },
        other => other,
    }
}

/// The first step for a target.
pub fn resolve_start(target: &TargetSnapshot) -> (r: ResolveStep)
    ensures
        r == first_resolve_step(target.configured_wire_api),
{
    if target.configured_wire_api == WireApi::Auto {
        ResolveStep::LookInCache
    } else {
        ResolveStep::UseConfigured
    }
}

/// The step after a step that found something or did not.
pub fn resolve_next(step: ResolveStep, found: bool) -> (r: ResolveStep)
    ensures
        r == next_resolve_step(step, found),
{
    match step {
        ResolveStep::LookInCache => if found {
            ResolveStep::UseFound
        } else {
            ResolveStep::LookInStore
        },
        ResolveStep::LookInStore => if found {
            ResolveStep::UseFound
        } else {
            ResolveStep::Lock
        },
        ResolveStep::Lock => ResolveStep::LookInCacheAgain,
        ResolveStep::LookInCacheAgain => if found {
            ResolveStep::UseFound
        } else {
            ResolveStep::LookInStoreAgain
        },
        ResolveStep::LookInStoreAgain => if found {
            ResolveStep::UseFound
        } else {
            ResolveStep::Probe
        },
        other => other,
    }
}

/// The steps from one on, given what each of them finds.
pub open spec fn resolve_steps(step: ResolveStep, found: Seq<bool>) -> ResolveStep
    decreases found.len(),
{
    if found.len() == 0 {
        step
    } else {
        resolve_steps(next_resolve_step(step, found[0]), found.drop_first())
    }
}

/// An upstream is probed only under the lock, and only when both the cache and
/// the store were looked into before it and again under it, all in vain. A hit
/// in the cache is used without any call.
pub proof fn probe_is_the_last_resort(found: Seq<bool>)
    requires
        found.len() == 5,
    ensures
        resolve_steps(ResolveStep::LookInCache, found) == ResolveStep::Probe <==> !found[0]
            && !found[1] && !found[3] && !found[4],
        found[0] ==> next_resolve_step(ResolveStep::LookInCache, found[0])
            == ResolveStep::UseFound,
{
    reveal_with_fuel(resolve_steps, 6);
    let one = found.drop_first();
    let two = one.drop_first();
    let three = two.drop_first();
    let four = three.drop_first();
    assert(one[0] == found[1] && two[0] == found[2] && three[0] == found[3] && four[0] == found[4]);
}

/// What an attempt at a protocol came to.
#[derive(Debug)]
pub enum ProbeAttemptResult {
    Supported,
    ProtocolUnsupported,
    AuthError(Error),
    RetryableFailure(Error),
    ModelInvalid(Error),
}

/// The mathematical value of a [`ProbeAttemptResult`].
#[verifier::ext_equal]
pub enum ProbeVerdict {
    Supported,
    ProtocolUnsupported,
    AuthError(ErrorView),
    RetryableFailure(ErrorView),
    ModelInvalid(ErrorView),
}

impl DeepView for ProbeAttemptResult {
    type V = ProbeVerdict;

    open spec fn deep_view(&self) -> ProbeVerdict {
        match self {
            ProbeAttemptResult::Supported => ProbeVerdict::Supported,
            ProbeAttemptResult::ProtocolUnsupported => ProbeVerdict::ProtocolUnsupported,
            ProbeAttemptResult::AuthError(error) => ProbeVerdict::AuthError(error.deep_view()),
            ProbeAttemptResult::RetryableFailure(error) => ProbeVerdict::RetryableFailure(
                error.deep_view(),
            ),
            ProbeAttemptResult::ModelInvalid(error) => ProbeVerdict::ModelInvalid(
                error.deep_view(),
            ),
        }
    }
}

/// Whether a message, in lower case, says that the model is not known.
pub open spec fn says_model_invalid(lower: Seq<char>) -> bool {
    contains_text(lower, "model"@) && (contains_text(lower, "not found"@) || contains_text(
        lower,
        "does not exist"@,
    ) || contains_text(lower, "unknown"@))
}

/// Whether a message, in lower case, says that the model is not known.
pub fn lower_model_invalid(lower: &str) -> (r: bool)
    ensures
        r == says_model_invalid(lower@),
{
    contains(lower, "model") && (contains(lower, "not found") || contains(
        lower,
        "does not exist",
    ) || contains(lower, "unknown"))
}

/// Whether a message says that the model is not known.
pub fn looks_like_model_invalid(message: &str) -> (r: bool)
    ensures
        r == says_model_invalid(lower_case(message@)),
{
    let lower = to_lowercase(message);
    lower_model_invalid(lower.as_str())
}

/// Whether a status, with its message in lower case, says that the protocol is
/// not spoken.
pub open spec fn says_protocol_unsupported(status: u16, lower: Seq<char>) -> bool {
    ||| status == 404 || status == 405 || status == 501
    ||| status == 400 && (contains_text(lower, "unknown parameter"@) || contains_text(
        lower,
        "unsupported endpoint"@,
    ) || contains_text(lower, "not supported"@))
}

/// Whether a status, with its message in lower case, says that the protocol is
/// not spoken.
pub fn lower_protocol_unsupported(status: u16, lower: &str) -> (r: bool)
    ensures
        r == says_protocol_unsupported(status, lower@),
{
    if status == 404 || status == 405 || status == 501 {
        return true;
    }
    if status != 400 {
        return false;
    }
    contains(lower, "unknown parameter") || contains(lower, "unsupported endpoint") || contains(
        lower,
        "not supported",
    )
}

/// Whether a status with its message says that the protocol is not spoken.
pub fn is_protocol_unsupported_probe_status(status: u16, message: &str) -> (r: bool)
    ensures
        r == says_protocol_unsupported(status, lower_case(message@)),
{
    let lower = to_lowercase(message);
    lower_protocol_unsupported(status, lower.as_str())
}

/// What the answer to a probe means, from its status and its message as it is
/// shown, plain and in lower case.
pub open spec fn probe_verdict(
    status: u16,
    message: Seq<char>,
    lower: Seq<char>,
) -> ProbeVerdict {
    if 200 <= status < 300 {
        ProbeVerdict::Supported
    } else if says_protocol_unsupported(status, lower) {
        ProbeVerdict::ProtocolUnsupported
    } else if status == 401 || status == 403 {
        ProbeVerdict::AuthError(error_of(ErrorKind::AuthFailed, message))
    } else if status == 400 && says_model_invalid(lower) {
        ProbeVerdict::ModelInvalid(error_of(ErrorKind::ModelNotFound, message))
    } else if status == 400 {
        ProbeVerdict::ProtocolUnsupported
    } else {
        ProbeVerdict::RetryableFailure(error_of(status_kind(status), message))
    }
}

/// What the answer to a probe means, from its status and its message as it is
/// shown, plain and in lower case.
pub fn classify_probe_message(status: u16, message: String, lower: &str) -> (r: ProbeAttemptResult)
    ensures
        r.deep_view() == probe_verdict(status, message@, lower@),
{
    if 200 <= status && status < 300 {
        return ProbeAttemptResult::Supported;
    }
    if lower_protocol_unsupported(status, lower) {
        return ProbeAttemptResult::ProtocolUnsupported;
    }
    if status == 401 || status == 403 {
        return ProbeAttemptResult::AuthError(Error { kind: ErrorKind::AuthFailed, message });
    }
    if status == 400 && lower_model_invalid(lower) {
        return ProbeAttemptResult::ModelInvalid(
            Error { kind: ErrorKind::ModelNotFound, message },
        );
    }
    if status == 400 {
        return ProbeAttemptResult::ProtocolUnsupported;
    }
    let kind = if status == 429 {
        ErrorKind::RateLimited
    } else if status == 504 {
        ErrorKind::UpstreamTimeout
    } else {
        ErrorKind::UpstreamUnavailable
    };
    ProbeAttemptResult::RetryableFailure(Error { kind, message })
}

/// What the answer to a probe means.
pub fn probe_candidate_once(status: u16, body: &Vec<u8>) -> (r: ProbeAttemptResult)
    ensures
        r.deep_view() == probe_verdict(
            status,
            shown_message(text_of_bytes(body@)),
            lower_case(shown_message(text_of_bytes(body@))),
        ),
{
    let message = redacted_upstream_error(body);
    let lower = to_lowercase(message.as_str());
    classify_probe_message(status, message, lower.as_str())
}

/// What a probe that got no answer means.
pub fn probe_unanswered(timed_out: bool, detail: &str) -> (r: ProbeAttemptResult)
    ensures
        r.deep_view() == ProbeVerdict::RetryableFailure(transport_error(timed_out, detail@)),
{
    ProbeAttemptResult::RetryableFailure(map_reqwest_error(timed_out, detail))
}

/// The path at which a protocol is probed.
pub open spec fn probe_path(wire_api: WireApi) -> Seq<char> {
    match wire_api {
        WireApi::Responses => "/responses"@,
        WireApi::Anthropic => "/messages"@,
        WireApi::OpenAiChat => "/chat/completions"@,
        WireApi::Auto => "/responses"@,
    }
}

/// The address at which a protocol of a target is probed.
pub fn probe_url(target: &TargetSnapshot, wire_api: WireApi) -> (r: String)
    ensures
        r@ == joined_url(target.provider_base_url@, probe_path(wire_api)),
{
    let path: &str = match wire_api {
        WireApi::Responses => "/responses",
        WireApi::Anthropic => "/messages",
        WireApi::OpenAiChat => "/chat/completions",
        WireApi::Auto => "/responses",
    };
    join_url(target.provider_base_url.as_str(), path)
}

/// The headers of a probe: the key goes with it as a bearer token, and for
/// Anthropic under its own name as well.
pub open spec fn probe_header_list(wire_api: WireApi, upstream_key: Option<Seq<char>>) -> Seq<
    (Seq<char>, Seq<char>),
> {
    let plain = seq![("content-type"@, "application/json"@)];
    match upstream_key {
        None => plain,
        Some(key) => {
            let keyed = plain.push(("authorization"@, "Bearer "@ + key));
            if wire_api == WireApi::Anthropic {
                keyed.push(("x-api-key"@, key)).push(("anthropic-version"@, "2023-06-01"@))
            } else {
                keyed
            }
        },
    }
}

pub(crate) fn add_header(headers: &mut Vec<(String, String)>, name: &str, value: String)
    ensures
        final(headers).deep_view() == old(headers).deep_view().push((name@, value@)),
{
    let ghost before = headers.deep_view();
    let ghost shown = (name@, value@);
    headers.push((name.to_owned(), value));
    assert(headers.deep_view() =~= before.push(shown));
}

/// The headers of a probe.
pub fn probe_headers(wire_api: WireApi, upstream_key: Option<&str>) -> (r: Vec<(String, String)>)
    ensures
        r.deep_view() == probe_header_list(wire_api, upstream_key.deep_view()),
{
    let mut headers: Vec<(String, String)> = Vec::new();
    assert(headers.deep_view() =~= Seq::empty());
    add_header(&mut headers, "content-type", "application/json".to_owned());
    assert(headers.deep_view() =~= seq![("content-type"@, "application/json"@)]);
    if let Some(key) = upstream_key {
        add_header(&mut headers, "authorization", join2("Bearer ", key));
        if wire_api == WireApi::Anthropic {
            add_header(&mut headers, "x-api-key", key.to_owned());
            add_header(&mut headers, "anthropic-version", "2023-06-01".to_owned());
        }
    }
    headers
}

/// The body of a probe: the smallest request there is.
pub open spec fn probe_body_of(upstream_model: Seq<char>) -> JsonView {
    JsonView::Object(
        seq![
            ("input"@, JsonView::Text("Reply with OK."@)),
            ("max_output_tokens"@, JsonView::Uint(1)),
            ("model"@, JsonView::Text(upstream_model)),
            ("stream"@, JsonView::Bool(false)),
        ],
    )
}

/// The body of a probe.
pub fn probe_body(target: &TargetSnapshot) -> (r: Json)
    ensures
        r@ == probe_body_of(target.upstream_model@),
{
    let mut members = no_members();
    add_member(&mut members, "input", text_value("Reply with OK."));
    add_member(&mut members, "max_output_tokens", Json::Uint(1));
    add_member(&mut members, "model", text_value(target.upstream_model.as_str()));
    add_member(&mut members, "stream", Json::Bool(false));
    assert(members.deep_view() =~= probe_body_of(target.upstream_model@)->Object_0);
    object_of(members)
}

/// The protocols in the order in which they are tried.
pub open spec fn probe_order() -> Seq<WireApi> {
    seq![WireApi::Responses, WireApi::Anthropic, WireApi::OpenAiChat]
}

/// The protocol to try first.
pub fn first_candidate() -> (r: WireApi)
    ensures
        r == probe_order()[0],
{
    WireApi::Responses
}

/// What is to be done after an attempt at a protocol.
#[derive(Debug)]
pub enum ProbeStep {
    /// Try this protocol.
    Try { candidate: WireApi },
    /// The protocol is found; the result is to be stored and kept.
    Found { probe: ProbeResult },
    /// Report this error.
    Fail { error: Error },
    /// No protocol is spoken, which is to be stored; report this error.
    NoneSpoken { error: Error },
}

/// The mathematical value of a [`ProbeStep`].
#[verifier::ext_equal]
pub enum ProbeStepView {
    Try { candidate: WireApi },
    Found { probe: ProbeView },
    Fail { error: ErrorView },
    NoneSpoken { error: ErrorView },
}

impl DeepView for ProbeStep {
    type V = ProbeStepView;

    open spec fn deep_view(&self) -> ProbeStepView {
        match self {
            ProbeStep::Try { candidate } => ProbeStepView::Try { candidate: *candidate },
            ProbeStep::Found { probe } => ProbeStepView::Found { probe: probe.deep_view() },
            ProbeStep::Fail { error } => ProbeStepView::Fail { error: error.deep_view() },
            ProbeStep::NoneSpoken { error } => ProbeStepView::NoneSpoken {
                error: error.deep_view(),
            },
        }
    }
}

/// The error of a target that speaks no protocol.
pub open spec fn none_spoken_error() -> ErrorView {
    error_of(
        ErrorKind::ProtocolNotSupported,
        "No supported upstream protocol found for target"@,
    )
}

/// The protocol that is tried after another.
pub open spec fn candidate_after(candidate: WireApi) -> Option<WireApi> {
    match candidate {
        WireApi::Responses => Some(WireApi::Anthropic),
        WireApi::Anthropic => Some(WireApi::OpenAiChat),
        _ => None,
    }
}

/// What is to be done after an attempt at a protocol: only where it is not
/// spoken is the next one tried.
pub open spec fn probe_on(
    target: SnapshotView,
    credential_hash: Seq<char>,
    candidate: WireApi,
    verdict: ProbeVerdict,
    now: i64,
) -> ProbeStepView {
    match verdict {
        ProbeVerdict::Supported => ProbeStepView::Found {
            probe: plain_probe(target, credential_hash, candidate, now),
        },
        ProbeVerdict::ProtocolUnsupported => match candidate_after(candidate) {
            Some(next) => ProbeStepView::Try { candidate: next },
            None => ProbeStepView::NoneSpoken { error: none_spoken_error() },
        },
        ProbeVerdict::AuthError(error) => ProbeStepView::Fail { error },
        ProbeVerdict::RetryableFailure(error) => ProbeStepView::Fail { error },
        ProbeVerdict::ModelInvalid(error) => ProbeStepView::Fail { error },
    }
}

/// What is to be done after an attempt at a protocol at `now`.
pub fn probe_wire_api_at(
    target: &TargetSnapshot,
    credential_hash: &str,
    candidate: WireApi,
    result: ProbeAttemptResult,
    now: i64,
) -> (r: ProbeStep)
    requires
        now <= i64::MAX - 3600,
    ensures
        r.deep_view() == probe_on(
            target.deep_view(),
            credential_hash@,
            candidate,
            result.deep_view(),
            now,
        ),
{
    match result {
        ProbeAttemptResult::Supported => ProbeStep::Found {
            probe: new_probe(target, credential_hash, candidate, now),
        },
        ProbeAttemptResult::ProtocolUnsupported => match candidate {
            WireApi::Responses => ProbeStep::Try { candidate: WireApi::Anthropic },
            WireApi::Anthropic => ProbeStep::Try { candidate: WireApi::OpenAiChat },
            _ => ProbeStep::NoneSpoken {
                error: Error::new(
                    ErrorKind::ProtocolNotSupported,
                    "No supported upstream protocol found for target",
                ),
            },
        },
        ProbeAttemptResult::AuthError(error) => ProbeStep::Fail { error },
        ProbeAttemptResult::RetryableFailure(error) => ProbeStep::Fail { error },
        ProbeAttemptResult::ModelInvalid(error) => ProbeStep::Fail { error },
    }
}

/// What is to be done after an attempt at a protocol, as of now.
pub fn probe_wire_api(
    target: &TargetSnapshot,
    credential_hash: &str,
    candidate: WireApi,
    result: ProbeAttemptResult,
) -> (r: ProbeStep)
    ensures
        exists|now: i64| #[trigger]
            probe_on(
                target.deep_view(),
                credential_hash@,
                candidate,
                result.deep_view(),
                now,
            ) == r.deep_view() && is_clock_second(now),
{
    let now: i64 = unix_now();
    let r = probe_wire_api_at(target, credential_hash, candidate, result, now);
    assert(probe_on(
        target.deep_view(),
        credential_hash@,
        candidate,
        result.deep_view(),
        now,
    ) == r.deep_view());
    r
}

/// A target's protocol once a probe has found it and the store was asked to keep
/// it. Where the store failed, that is the error.
pub open spec fn kept_probe(
    probe: ProbeView,
    stored: Result<(), Seq<char>>,
) -> Result<ResolvedView, ErrorView> {
    match stored {
        Ok(()) => Ok(resolved_by(probe, probe.credential_hash)),
        Err(detail) => Err(
            error_of(ErrorKind::InternalError, "Failed to store probe success: "@ + detail),
        ),
    }
}

/// A target's protocol once a probe has found it and the store was asked to keep
/// it. Where the store failed, the cache is left as it was.
pub fn keep_probe(
    cache: &mut ProbeCache,
    cache_key: &str,
    probe: &ProbeResult,
    stored: Result<(), String>,
) -> (r: Result<ResolvedTargetProtocol, Error>)
    ensures
        outcome(r) == kept_probe(
            probe.deep_view(),
            match stored {
                Ok(()) => Ok(()),
                Err(detail) => Err(detail@),
            },
        ),
        final(cache)@ == (if stored is Ok {
            old(cache)@.insert(cache_key@, probe.deep_view())
        } else {
            old(cache)@
        }),
{
    match stored {
        Ok(()) => {
            cache.remember_probe(cache_key, probe);
            Ok(resolve_from_probe(probe, probe.credential_hash.as_str()))
        },
        Err(detail) => Err(
            Error::about(
                ErrorKind::InternalError,
                "Failed to store probe success: ",
                detail.as_str(),
            ),
        ),
    }
}

/// The last step of a probe whose attempts come to these verdicts.
pub open spec fn probe_all(
    target: SnapshotView,
    credential_hash: Seq<char>,
    candidate: WireApi,
    verdicts: Seq<ProbeVerdict>,
    now: i64,
) -> ProbeStepView
    decreases verdicts.len(),
{
    if verdicts.len() == 0 {
        ProbeStepView::Try { candidate }
    } else {
        match probe_on(target, credential_hash, candidate, verdicts[0], now) {
            ProbeStepView::Try { candidate: next } => probe_all(
                target,
                credential_hash,
                next,
                verdicts.drop_first(),
                now,
            ),
            step => step,
        }
    }
}

/// The protocols are tried in their order, each at most once: the first one
/// that is spoken is found, whatever would have come after it.
pub proof fn first_spoken_protocol_is_found(
    target: SnapshotView,
    credential_hash: Seq<char>,
    verdicts: Seq<ProbeVerdict>,
    k: int,
    now: i64,
)
    requires
        0 <= k < 3,
        k < verdicts.len(),
        verdicts[k] == ProbeVerdict::Supported,
        forall|i: int| 0 <= i < k ==> #[trigger] verdicts[i] == ProbeVerdict::ProtocolUnsupported,
    ensures
        probe_all(target, credential_hash, probe_order()[0], verdicts, now) == (
        ProbeStepView::Found {
            probe: plain_probe(target, credential_hash, probe_order()[k], now),
        }),
{
    reveal_with_fuel(probe_all, 4);
    if k >= 1 {
        assert(verdicts[0] == ProbeVerdict::ProtocolUnsupported);
        assert(verdicts.drop_first()[0] == verdicts[1]);
    }
    if k >= 2 {
        assert(verdicts[1] == ProbeVerdict::ProtocolUnsupported);
        assert(verdicts.drop_first().drop_first()[0] == verdicts[2]);
    }
}

/// Where no protocol is spoken, all three are tried and that is reported; a
/// refused key or an upstream that cannot answer stops the probe at once.
pub proof fn unspoken_protocols_are_reported(
    target: SnapshotView,
    credential_hash: Seq<char>,
    candidate: WireApi,
    verdict: ProbeVerdict,
    now: i64,
)
    ensures
        probe_all(
            target,
            credential_hash,
            probe_order()[0],
            seq![
                ProbeVerdict::ProtocolUnsupported,
                ProbeVerdict::ProtocolUnsupported,
                ProbeVerdict::ProtocolUnsupported,
            ],
            now,
        ) == (ProbeStepView::NoneSpoken { error: none_spoken_error() }),
        verdict matches ProbeVerdict::AuthError(error) ==> probe_on(
            target,
            credential_hash,
            candidate,
            verdict,
            now,
        ) == (ProbeStepView::Fail { error }),
        verdict matches ProbeVerdict::RetryableFailure(error) ==> probe_on(
            target,
            credential_hash,
            candidate,
            verdict,
            now,
        ) == (ProbeStepView::Fail { error }),
{
    reveal_with_fuel(probe_all, 4);
    let all = seq![
        ProbeVerdict::ProtocolUnsupported,
        ProbeVerdict::ProtocolUnsupported,
        ProbeVerdict::ProtocolUnsupported,
    ];
    assert(all.drop_first()[0] == all[1]);
    assert(all.drop_first().drop_first()[0] == all[2]);
}

/// What is kept in the cache is found there until it expires.
pub proof fn remembered_probe_is_found(
    cache: Map<Seq<char>, ProbeView>,
    key: Seq<char>,
    probe: ProbeView,
    now: i64,
)
    ensures
        live_probe(cache.insert(key, probe), key, now) == (if probe.expires_at > now {
            Some(probe)
        } else {
            None
        }),
{
}

/// The key of a result begins with the provider and ends with the model, and what
/// stands between them is the credential between two colons.
pub proof fn key_is_made_of_its_parts(
    provider_id: Seq<char>,
    credential_hash: Seq<char>,
    upstream_model: Seq<char>,
)
    ensures
        ({
            let key = cache_key_of(provider_id, credential_hash, upstream_model);
            let end = key.len() - upstream_model.len();
            &&& key.take(provider_id.len() as int) == provider_id
            &&& key.skip(end) == upstream_model
            &&& key.subrange(provider_id.len() as int, end) == seq![':'] + credential_hash
                + seq![':']
        }),
{
    reveal_strlit(":");
    let key = cache_key_of(provider_id, credential_hash, upstream_model);
    let end = key.len() - upstream_model.len();
    assert(":"@ =~= seq![':']);
    assert(key.take(provider_id.len() as int) =~= provider_id);
    assert(key.skip(end) =~= upstream_model);
    assert(key.subrange(provider_id.len() as int, end) =~= seq![':'] + credential_hash
        + seq![':']);
}

/// A credential is told by its digest, and the lack of one by a word of its own.
pub proof fn credential_is_told_by_its_digest(key: Seq<char>, digest: Seq<char>)
    ensures
        credential_hash_of(Some(key), digest) == digest,
        credential_hash_of(None, digest) == "no-key"@,
{
}

/// A result is found just as long as it is good, and as it was kept.
pub proof fn good_probes_are_found(cache: Map<Seq<char>, ProbeView>, key: Seq<char>, now: i64)
    ensures
        live_probe(cache, key, now) matches Some(probe) ==> cache.dom().contains(key)
            && cache[key] == probe && now < probe.expires_at,
        live_probe(cache, key, now) is None ==> !cache.dom().contains(key) || cache[key].expires_at
            <= now,
{
}

/// A new result is about the target, the credential and the protocol that it was made
/// for, is good for an hour from then, and claims no support for anything.
pub proof fn new_probe_claims_nothing_else(
    target: SnapshotView,
    credential_hash: Seq<char>,
    wire_api: WireApi,
    now: i64,
    later: i64,
    cache: Map<Seq<char>, ProbeView>,
    key: Seq<char>,
)
    requires
        now <= i64::MAX - 3600,
    ensures
        ({
            let probe = plain_probe(target, credential_hash, wire_api, now);
            &&& probe.provider_id == target.provider_id
            &&& probe.upstream_model == target.upstream_model
            &&& probe.credential_hash == credential_hash && probe.wire_api == wire_api
            &&& !probe.supports_streaming && !probe.supports_tools
                && !probe.supports_parallel_tool_calls && !probe.tool_support_known
                && !probe.supports_previous_response_id
                && !probe.supports_reasoning_encrypted_content
                && !probe.supports_reasoning_summary
            &&& probe.last_success_at == Some(now) && probe.last_failure_at is None
                && probe.failure_kind is None && probe.failure_message_redacted is None
            &&& live_probe(cache.insert(key, probe), key, later) is Some <==> later < now + 3600
        }),
{
}

/// Once a forced protocol is noted, the result for the target is good and tells of it;
/// one that did so already is left alone and is not new. No other result is touched.
pub proof fn forced_protocol_is_seen(
    cache: Map<Seq<char>, ProbeView>,
    target: SnapshotView,
    credential_hash: Seq<char>,
    wire_api: WireApi,
    now: i64,
    other: Seq<char>,
)
    requires
        now <= i64::MAX - 3600,
    ensures
        ({
            let key = cache_key_of(target.provider_id, credential_hash, target.upstream_model);
            let (after, new) = forced_probe_noted(cache, target, credential_hash, wire_api, now);
            let known = cache.dom().contains(key) && cache[key].expires_at > now
                && cache[key].wire_api == wire_api;
            &&& live_probe(after, key, now) matches Some(probe) && probe.wire_api == wire_api
            &&& known ==> after == cache && new is None
            &&& !known ==> new is Some && after.dom().contains(key) && after[key] == new->0
            &&& other != key ==> after.dom().contains(other) == cache.dom().contains(other)
                && after[other] == cache[other]
        }),
{
}

/// What a stored row tells is told by the result, each flag under its own name: one is
/// set where the row holds anything but zero, and tool support is known just where the
/// row says anything of it. Provider, model, credential and protocol are those that
/// were asked for.
pub proof fn stored_probe_is_read_by_name(
    row: ProbeRowView,
    target: SnapshotView,
    credential_hash: Seq<char>,
    wire_api: WireApi,
    now: i64,
)
    requires
        now <= i64::MAX - 3600,
    ensures
        ({
            let probe = probe_of_row(row, target, credential_hash, wire_api, now);
            &&& probe.provider_id == target.provider_id
            &&& probe.upstream_model == target.upstream_model
            &&& probe.credential_hash == credential_hash && probe.wire_api == wire_api
            &&& probe.supports_streaming <==> row.supports_streaming is Some
                && row.supports_streaming->0 != 0
            &&& probe.supports_tools <==> row.supports_tools is Some && row.supports_tools->0 != 0
            &&& probe.supports_parallel_tool_calls <==> row.supports_parallel_tool_calls is Some
                && row.supports_parallel_tool_calls->0 != 0
            &&& probe.supports_previous_response_id <==> row.supports_previous_response_id is Some
                && row.supports_previous_response_id->0 != 0
            &&& probe.supports_reasoning_encrypted_content
                <==> row.supports_reasoning_encrypted_content is Some
                && row.supports_reasoning_encrypted_content->0 != 0
            &&& probe.supports_reasoning_summary <==> row.supports_reasoning_summary is Some
                && row.supports_reasoning_summary->0 != 0
            &&& probe.tool_support_known <==> row.supports_tools is Some
            &&& probe.failure_kind == row.failure_kind
            &&& probe.failure_message_redacted == row.failure_message_redacted
            &&& row.last_success_at is None ==> probe.last_success_at is None
            &&& row.last_success_at matches Some(text) ==> probe.last_success_at == rfc3339_time(
                text,
            )
            &&& row.last_failure_at is None ==> probe.last_failure_at is None
            &&& row.last_failure_at matches Some(text) ==> probe.last_failure_at == rfc3339_time(
                text,
            )
            &&& rfc3339_time(row.expires_at) matches Some(time) ==> probe.expires_at == time
            &&& rfc3339_time(row.expires_at) is None ==> probe.expires_at == now + 3600
        }),
{
}

/// The store's result is used just where it tells of a success; without a row there is
/// none, and a failed store or a protocol of no known name is an error.
pub proof fn stored_probe_is_used_where_it_succeeded(
    row: Result<Option<ProbeRowView>, Seq<char>>,
    target: SnapshotView,
    credential_hash: Seq<char>,
    now: i64,
)
    ensures
        loaded_probe(row, target, credential_hash, now) is Err <==> row is Err || (row matches Ok(
            Some(found),
        ) && found.status == "success"@ && wire_api_named(found.wire_api) is None),
        loaded_probe(row, target, credential_hash, now) matches Err(error) ==> error.kind
            == ErrorKind::InternalError,
        loaded_probe(row, target, credential_hash, now) matches Ok(Some(probe)) ==> (row matches Ok(
            Some(found),
        ) && found.status == "success"@ && probe.wire_api.name() == found.wire_api && probe
            == probe_of_row(found, target, credential_hash, probe.wire_api, now)),
        loaded_probe(row, target, credential_hash, now) == Ok::<Option<ProbeView>, ErrorView>(None)
            <==> (row matches Ok(found) && (found matches Some(found) ==> found.status
            != "success"@)),
{
}

/// A target's protocol is the configured one, or else the one that a result tells of,
/// with what the result knows of tools; of a configured one nothing is known of them.
pub proof fn protocol_is_the_configured_or_the_found_one(
    probe: ProbeView,
    target: SnapshotView,
    credential_hash: Seq<char>,
)
    ensures
        ({
            let resolved = resolved_by(probe, credential_hash);
            &&& resolved.wire_api == probe.wire_api && resolved.credential_hash == credential_hash
            &&& resolved.supports_tools == probe.supports_tools
            &&& resolved.tool_support_known == probe.tool_support_known
        }),
        resolved_by_config(target, credential_hash) is None <==> target.configured_wire_api is Auto,
        resolved_by_config(target, credential_hash) matches Some(resolved) ==> resolved.wire_api
            == target.configured_wire_api && resolved.credential_hash == credential_hash
            && !resolved.supports_tools && !resolved.tool_support_known,
        first_resolve_step(target.configured_wire_api) is UseConfigured
            <==> !(target.configured_wire_api is Auto),
        target.configured_wire_api is Auto ==> first_resolve_step(target.configured_wire_api)
            is LookInCache,
        kept_probe(probe, Ok(())) == Ok::<ResolvedView, ErrorView>(
            resolved_by(probe, probe.credential_hash),
        ),
{
}

/// A target is looked for in the cache before the store, and in both again once it is
/// locked. What is found is used at once; nothing is probed before all four have been
/// asked in vain, and what is settled stays so.
pub proof fn lookup_goes_from_near_to_far(found: bool)
    ensures
        next_resolve_step(ResolveStep::LookInCache, true) is UseFound,
        next_resolve_step(ResolveStep::LookInStore, true) is UseFound,
        next_resolve_step(ResolveStep::LookInCacheAgain, true) is UseFound,
        next_resolve_step(ResolveStep::LookInStoreAgain, true) is UseFound,
        next_resolve_step(ResolveStep::LookInCache, false) is LookInStore,
        next_resolve_step(ResolveStep::LookInStore, false) is Lock,
        next_resolve_step(ResolveStep::Lock, found) is LookInCacheAgain,
        next_resolve_step(ResolveStep::LookInCacheAgain, false) is LookInStoreAgain,
        next_resolve_step(ResolveStep::LookInStoreAgain, false) is Probe,
        next_resolve_step(ResolveStep::UseFound, found) is UseFound,
        next_resolve_step(ResolveStep::UseConfigured, found) is UseConfigured,
        next_resolve_step(ResolveStep::Probe, found) is Probe,
{
}

/// What the answer to a probe means: success is success; a missing or refused method
/// is a protocol that is not spoken; a refused key is that; a bad request is a model
/// that is not known, where it says so, and else a protocol that is not spoken; any
/// other status may pass, and is reported by its meaning. The message is always the
/// one that is shown.
pub proof fn probe_is_judged_by_its_answer(status: u16, message: Seq<char>, lower: Seq<char>)
    ensures
        ({
            let verdict = probe_verdict(status, message, lower);
            let no_protocol = contains_text(lower, "unknown parameter"@) || contains_text(
                lower,
                "unsupported endpoint"@,
            ) || contains_text(lower, "not supported"@);
            let no_model = contains_text(lower, "model"@) && (contains_text(lower, "not found"@)
                || contains_text(lower, "does not exist"@) || contains_text(lower, "unknown"@));
            &&& verdict is Supported <==> 200 <= status <= 299
            &&& verdict is AuthError <==> status == 401 || status == 403
            &&& verdict is ModelInvalid <==> status == 400 && !no_protocol && no_model
            &&& verdict is ProtocolUnsupported <==> status == 404 || status == 405 || status == 501
                || (status == 400 && (no_protocol || !no_model))
            &&& verdict matches ProbeVerdict::AuthError(error) ==> error.kind
                == ErrorKind::AuthFailed && error.message == message
            &&& verdict matches ProbeVerdict::ModelInvalid(error) ==> error.kind
                == ErrorKind::ModelNotFound && error.message == message
            &&& verdict matches ProbeVerdict::RetryableFailure(error) ==> error.kind == status_kind(
                status,
            ) && error.message == message
        }),
{
}

/// The key goes with a probe as a bearer, to Anthropic also under its own name with the
/// version of the interface, and nowhere else; without a key none of these is sent.
pub proof fn probe_carries_the_key(wire_api: WireApi, key: Seq<char>)
    ensures
        ({
            let headers = probe_header_list(wire_api, Some(key));
            &&& headers.contains(("content-type"@, "application/json"@))
            &&& headers.contains(("authorization"@, "Bearer "@ + key))
            &&& wire_api is Anthropic ==> headers.contains(("x-api-key"@, key)) && headers.contains(
                ("anthropic-version"@, "2023-06-01"@),
            ) && headers.len() == 4
            &&& !(wire_api is Anthropic) ==> headers.len() == 2
        }),
        probe_header_list(wire_api, None) == seq![("content-type"@, "application/json"@)],
{
    let headers = probe_header_list(wire_api, Some(key));
    assert(headers[0] == ("content-type"@, "application/json"@));
    assert(headers[1] == ("authorization"@, "Bearer "@ + key));
    if wire_api is Anthropic {
        assert(headers[2] == ("x-api-key"@, key));
        assert(headers[3] == ("anthropic-version"@, "2023-06-01"@));
    }
}

/// A probe asks the upstream's model for one token, and not for a stream.
pub proof fn probe_asks_for_little(upstream_model: Seq<char>)
    ensures
        ({
            let body = probe_body_of(upstream_model);
            &&& body.holds("model"@, JsonView::Text(upstream_model))
            &&& body.holds("max_output_tokens"@, JsonView::Uint(1))
            &&& body.holds("stream"@, JsonView::Bool(false))
            &&& body.holds("input"@, JsonView::Text("Reply with OK."@))
            &&& body->Object_0.len() == 4
        }),
{
    let body = probe_body_of(upstream_model);
    lemma_holds(body, 0);
    lemma_holds(body, 1);
    lemma_holds(body, 2);
    lemma_holds(body, 3);
}

/// Each protocol is probed where it is served, and the protocols are tried in the order
/// Responses, Anthropic, chat; the next one is tried just where one is not spoken.
pub proof fn protocols_are_tried_in_order(
    target: SnapshotView,
    credential_hash: Seq<char>,
    candidate: WireApi,
    verdict: ProbeVerdict,
    now: i64,
)
    ensures
        probe_path(WireApi::Responses) == "/responses"@,
        probe_path(WireApi::Auto) == probe_path(WireApi::Responses),
        probe_path(WireApi::Anthropic) == "/messages"@,
        probe_path(WireApi::OpenAiChat) == "/chat/completions"@,
        candidate_after(WireApi::Responses) == Some(WireApi::Anthropic),
        candidate_after(WireApi::Anthropic) == Some(WireApi::OpenAiChat),
        candidate_after(WireApi::OpenAiChat) is None,
        probe_order()[0] is Responses && probe_order()[1] is Anthropic && probe_order()[2]
            is OpenAiChat && probe_order().len() == 3,
        probe_on(target, credential_hash, candidate, verdict, now) matches ProbeStepView::Try {
            candidate: next,
        } ==> verdict is ProtocolUnsupported && candidate_after(candidate) == Some(next),
        probe_on(target, credential_hash, candidate, verdict, now) is Found
            <==> verdict is Supported,
        probe_on(target, credential_hash, candidate, verdict, now) matches ProbeStepView::Found {
            probe,
        } ==> probe == plain_probe(target, credential_hash, candidate, now),
        probe_on(target, credential_hash, candidate, verdict, now) is NoneSpoken
            <==> verdict is ProtocolUnsupported && candidate_after(candidate) is None,
        none_spoken_error().kind == ErrorKind::ProtocolNotSupported,
{
}

/// Nothing is found in an empty cache.
pub proof fn empty_cache_finds_nothing(key: Seq<char>, now: i64)
    ensures
        live_probe(empty_cache(), key, now) is None,
        empty_cache().dom().len() == 0,
{
}

} // verus!
