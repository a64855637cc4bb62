//! What an administrator is shown of the results of probes.

use crate::error::{error_of, Error, ErrorKind};
use crate::json::{
    add_item, add_member, integer, integer_or_null, integer_value, lemma_holds, no_members,
    object_of,
    opt_integer_value, opt_text_value, text_or_null, text_value, Json, JsonView,
};
use crate::relay::continuation::{present, present_keeps_the_values};
use crate::relay::probe::{
    cache_key_of, flag_is_set, is_set, probe_cache_key, ProbeResult, ProbeRow, ProbeRowView,
    ProbeView,
};
use crate::text::same;
use vstd::prelude::*;

verus! {

/// The key of a stored result.
pub open spec fn row_key(row: ProbeRowView) -> Seq<char> {
    cache_key_of(row.provider_id, row.credential_hash, row.upstream_model)
}

/// A stored result as it is shown.
pub open spec fn persisted_probe(row: ProbeRowView) -> JsonView {
    JsonView::Object(
        seq![
            ("credential_hash"@, JsonView::Text(row.credential_hash)),
            ("expires_at"@, JsonView::Text(row.expires_at)),
            ("failure_kind"@, text_or_null(row.failure_kind)),
            ("failure_message_redacted"@, text_or_null(row.failure_message_redacted)),
            ("key"@, JsonView::Text(row_key(row))),
            ("last_failure_at"@, text_or_null(row.last_failure_at)),
            ("last_success_at"@, text_or_null(row.last_success_at)),
            ("provider_id"@, JsonView::Text(row.provider_id)),
            ("source"@, JsonView::Text("persisted"@)),
            ("status"@, JsonView::Text(row.status)),
            (
                "supports_parallel_tool_calls"@,
                JsonView::Bool(is_set(row.supports_parallel_tool_calls)),
            ),
            (
                "supports_previous_response_id"@,
                JsonView::Bool(is_set(row.supports_previous_response_id)),
            ),
            (
                "supports_reasoning_encrypted_content"@,
                JsonView::Bool(is_set(row.supports_reasoning_encrypted_content)),
            ),
            (
                "supports_reasoning_summary"@,
                JsonView::Bool(is_set(row.supports_reasoning_summary)),
            ),
            ("supports_streaming"@, JsonView::Bool(is_set(row.supports_streaming))),
            ("supports_tools"@, JsonView::Bool(is_set(row.supports_tools))),
            ("upstream_model"@, JsonView::Text(row.upstream_model)),
            ("wire_api"@, JsonView::Text(row.wire_api)),
        ],
    )
}

/// A result of the cache as it is shown.
pub open spec fn cached_probe(key: Seq<char>, probe: ProbeView) -> JsonView {
    JsonView::Object(
        seq![
            ("credential_hash"@, JsonView::Text(probe.credential_hash)),
            ("expires_at"@, integer(probe.expires_at)),
            ("failure_kind"@, text_or_null(probe.failure_kind)),
            ("failure_message_redacted"@, text_or_null(probe.failure_message_redacted)),
            ("key"@, JsonView::Text(key)),
            ("last_failure_at"@, integer_or_null(probe.last_failure_at)),
            ("last_success_at"@, integer_or_null(probe.last_success_at)),
            ("provider_id"@, JsonView::Text(probe.provider_id)),
            ("source"@, JsonView::Text("cache"@)),
            ("status"@, JsonView::Text("success"@)),
            (
                "supports_parallel_tool_calls"@,
                JsonView::Bool(probe.supports_parallel_tool_calls),
            ),
            (
                "supports_previous_response_id"@,
                JsonView::Bool(probe.supports_previous_response_id),
            ),
            (
                "supports_reasoning_encrypted_content"@,
                JsonView::Bool(probe.supports_reasoning_encrypted_content),
            ),
            ("supports_reasoning_summary"@, JsonView::Bool(probe.supports_reasoning_summary)),
            ("supports_streaming"@, JsonView::Bool(probe.supports_streaming)),
            ("supports_tools"@, JsonView::Bool(probe.supports_tools)),
            ("upstream_model"@, JsonView::Text(probe.upstream_model)),
            ("wire_api"@, JsonView::Text(probe.wire_api.name())),
        ],
    )
}

fn persisted_value(row: &ProbeRow) -> (r: Json)
    ensures
        r@ == persisted_probe(row.deep_view()),
{
    let key = probe_cache_key(
        row.provider_id.as_str(),
        row.credential_hash.as_str(),
        row.upstream_model.as_str(),
    );
    let mut members = no_members();
    add_member(&mut members, "credential_hash", text_value(row.credential_hash.as_str()));
    add_member(&mut members, "expires_at", text_value(row.expires_at.as_str()));
    add_member(&mut members, "failure_kind", opt_text_value(&row.failure_kind));
    add_member(
        &mut members,
        "failure_message_redacted",
        opt_text_value(&row.failure_message_redacted),
    );
    add_member(&mut members, "key", text_value(key.as_str()));
    add_member(&mut members, "last_failure_at", opt_text_value(&row.last_failure_at));
    add_member(&mut members, "last_success_at", opt_text_value(&row.last_success_at));
    add_member(&mut members, "provider_id", text_value(row.provider_id.as_str()));
    add_member(&mut members, "source", text_value("persisted"));
    add_member(&mut members, "status", text_value(row.status.as_str()));
    add_member(
        &mut members,
        "supports_parallel_tool_calls",
        Json::Bool(flag_is_set(row.supports_parallel_tool_calls)),
    );
    add_member(
        &mut members,
        "supports_previous_response_id",
        Json::Bool(flag_is_set(row.supports_previous_response_id)),
    );
    add_member(
        &mut members,
        "supports_reasoning_encrypted_content",
        Json::Bool(flag_is_set(row.supports_reasoning_encrypted_content)),
    );
    add_member(
        &mut members,
        "supports_reasoning_summary",
        Json::Bool(flag_is_set(row.supports_reasoning_summary)),
    );
    add_member(
        &mut members,
        "supports_streaming",
        Json::Bool(flag_is_set(row.supports_streaming)),
    );
    add_member(&mut members, "supports_tools", Json::Bool(flag_is_set(row.supports_tools)));
    add_member(&mut members, "upstream_model", text_value(row.upstream_model.as_str()));
    add_member(&mut members, "wire_api", text_value(row.wire_api.as_str()));
    assert(members.deep_view() =~= persisted_probe(row.deep_view())->Object_0);
    object_of(members)
}

fn cached_value(key: &str, probe: &ProbeResult) -> (r: Json)
    ensures
        r@ == cached_probe(key@, probe.deep_view()),
{
    let mut members = no_members();
    add_member(&mut members, "credential_hash", text_value(probe.credential_hash.as_str()));
    add_member(&mut members, "expires_at", integer_value(probe.expires_at));
    add_member(&mut members, "failure_kind", opt_text_value(&probe.failure_kind));
    add_member(
        &mut members,
        "failure_message_redacted",
        opt_text_value(&probe.failure_message_redacted),
    );
    add_member(&mut members, "key", text_value(key));
    add_member(&mut members, "last_failure_at", opt_integer_value(probe.last_failure_at));
    add_member(&mut members, "last_success_at", opt_integer_value(probe.last_success_at));
    add_member(&mut members, "provider_id", text_value(probe.provider_id.as_str()));
    add_member(&mut members, "source", text_value("cache"));
    add_member(&mut members, "status", text_value("success"));
    add_member(
        &mut members,
        "supports_parallel_tool_calls",
        Json::Bool(probe.supports_parallel_tool_calls),
    );
    add_member(
        &mut members,
        "supports_previous_response_id",
        Json::Bool(probe.supports_previous_response_id),
    );
    add_member(
        &mut members,
        "supports_reasoning_encrypted_content",
        Json::Bool(probe.supports_reasoning_encrypted_content),
    );
    add_member(
        &mut members,
        "supports_reasoning_summary",
        Json::Bool(probe.supports_reasoning_summary),
    );
    add_member(&mut members, "supports_streaming", Json::Bool(probe.supports_streaming));
    add_member(&mut members, "supports_tools", Json::Bool(probe.supports_tools));
    add_member(&mut members, "upstream_model", text_value(probe.upstream_model.as_str()));
    add_member(&mut members, "wire_api", text_value(probe.wire_api.as_str()));
    assert(members.deep_view() =~= cached_probe(key@, probe.deep_view())->Object_0);
    object_of(members)
}

/// Whether a key is that of a stored result.
pub open spec fn is_persisted(rows: Seq<ProbeRowView>, key: Seq<char>) -> bool {
    exists|i: int| 0 <= i < rows.len() && row_key(#[trigger] rows[i]) == key
}

/// Whether a key is that of one of the first `n` entries of the cache.
pub open spec fn is_cached_before(
    entries: Seq<(Seq<char>, ProbeView)>,
    n: int,
    key: Seq<char>,
) -> bool {
    exists|i: int| 0 <= i < n && (#[trigger] entries[i]).0 == key
}

/// What is shown of the entry of the cache at `i`: nothing where its key is shown
/// already.
pub open spec fn shown_entry(
    rows: Seq<ProbeRowView>,
    entries: Seq<(Seq<char>, ProbeView)>,
    i: int,
) -> Option<JsonView> {
    if is_persisted(rows, entries[i].0) || is_cached_before(entries, i, entries[i].0) {
        None
    } else {
        Some(cached_probe(entries[i].0, entries[i].1))
    }
}

/// What is shown of each entry of the cache.
pub open spec fn shown_entries(
    rows: Seq<ProbeRowView>,
    entries: Seq<(Seq<char>, ProbeView)>,
) -> Seq<Option<JsonView>> {
    Seq::new(entries.len(), |i: int| shown_entry(rows, entries, i))
}

/// What is shown of stored results.
pub open spec fn persisted_probes(rows: Seq<ProbeRowView>) -> Seq<JsonView> {
    rows.map_values(|row: ProbeRowView| persisted_probe(row))
}

/// The results that are shown: the stored ones, and then those of the cache that
/// are not stored.
pub open spec fn listed_probes(
    rows: Seq<ProbeRowView>,
    entries: Seq<(Seq<char>, ProbeView)>,
) -> Seq<JsonView> {
    persisted_probes(rows) + present(shown_entries(rows, entries))
}

fn has_row(rows: &Vec<ProbeRow>, key: &str) -> (r: bool)
    ensures
        r == is_persisted(rows.deep_view(), key@),
{
    let ghost views = rows.deep_view();
    let mut i: usize = 0;
    while i < rows.len()
        invariant
            i <= rows.len(),
            views == rows.deep_view(),
            forall|j: int| 0 <= j < i ==> row_key(#[trigger] views[j]) != key@,
        decreases rows.len() - i,
    {
        assert(views[i as int] == rows@[i as int].deep_view());
        let own = probe_cache_key(
            rows[i].provider_id.as_str(),
            rows[i].credential_hash.as_str(),
            rows[i].upstream_model.as_str(),
        );
        if same(own.as_str(), key) {
            return true;
        }
        i = i + 1;
    }
    false
}

fn has_entry(entries: &Vec<(String, ProbeResult)>, n: usize, key: &str) -> (r: bool)
    requires
        n <= entries.len(),
    ensures
        r == is_cached_before(entries.deep_view(), n as int, key@),
{
    let ghost views = entries.deep_view();
    let mut i: usize = 0;
    while i < n
        invariant
            i <= n <= entries.len(),
            views == entries.deep_view(),
            forall|j: int| 0 <= j < i ==> (#[trigger] views[j]).0 != key@,
        decreases n - i,
    {
        assert(views[i as int].0 == entries@[i as int].0@);
        if same(entries[i].0.as_str(), key) {
            return true;
        }
        i = i + 1;
    }
    false
}

/// The results that are shown. `entries` are those of the cache, in the order in
/// which it was walked.
pub fn list_probes(rows: &Vec<ProbeRow>, entries: &Vec<(String, ProbeResult)>) -> (r: Vec<Json>)
    ensures
        r.deep_view() == listed_probes(rows.deep_view(), entries.deep_view()),
{
    let ghost stored = rows.deep_view();
    let ghost cached = entries.deep_view();
    let ghost wanted = persisted_probes(stored);
    let mut probes: Vec<Json> = Vec::new();
    let mut i: usize = 0;
    assert(probes.deep_view() =~= wanted.take(0));
    while i < rows.len()
        invariant
            i <= rows.len(),
            wanted == persisted_probes(rows.deep_view()),
            probes.deep_view() == wanted.take(i as int),
        decreases rows.len() - i,
    {
        add_item(&mut probes, persisted_value(&rows[i]));
        assert(probes.deep_view() =~= wanted.take(i + 1));
        i = i + 1;
    }
    assert(wanted.take(wanted.len() as int) =~= wanted);
    let ghost shown = shown_entries(stored, cached);
    let mut j: usize = 0;
    assert(shown.take(0) =~= Seq::empty());
    assert(wanted + present(shown.take(0)) =~= wanted);
    while j < entries.len()
        invariant
            j <= entries.len(),
            stored == rows.deep_view(),
            cached == entries.deep_view(),
            shown == shown_entries(stored, cached),
            probes.deep_view() == wanted + present(shown.take(j as int)),
        decreases entries.len() - j,
    {
        assert(shown.take(j + 1).drop_last() =~= shown.take(j as int));
        assert(cached[j as int] == (entries@[j as int].0@, entries@[j as int].1.deep_view()));
        let key = entries[j].0.as_str();
        if !has_row(rows, key) && !has_entry(entries, j, key) {
            add_item(&mut probes, cached_value(key, &entries[j].1));
            assert(probes.deep_view() =~= wanted + present(shown.take(j + 1)));
        }
        j = j + 1;
    }
    assert(shown.take(shown.len() as int) =~= shown);
    probes
}

/// The answer to a refresh, given how many stored results it cleared.
pub fn refresh_answer(cleared: &Result<u64, String>) -> (r: Result<Json, Error>)
    ensures
        match *cleared {
            Ok(count) => r matches Ok(answer) && answer@ == JsonView::Object(
                seq![
                    ("persisted_cleared"@, JsonView::Uint(count)),
                    ("status"@, JsonView::Text("probes_refreshed"@)),
                ],
            ),
            Err(detail) => r matches Err(error) && error.deep_view() == error_of(
                ErrorKind::InternalError,
                "Failed to clear persisted probe results: "@ + detail@,
            ),
        },
{
    match cleared {
        Ok(count) => {
            let count: u64 = *count;
            let mut members = no_members();
            add_member(&mut members, "persisted_cleared", Json::Uint(count));
            add_member(&mut members, "status", text_value("probes_refreshed"));
            let answer = object_of(members);
            assert(answer@->Object_0 =~= seq![
                ("persisted_cleared"@, JsonView::Uint(count)),
                ("status"@, JsonView::Text("probes_refreshed"@)),
            ]);
            Ok(answer)
        },
        Err(detail) => Err(
            Error::about(
                ErrorKind::InternalError,
                "Failed to clear persisted probe results: ",
                detail.as_str(),
            ),
        ),
    }
}

/// A result of the cache that is stored as well is shown once, as it is stored:
/// nothing is shown of the entry itself, and one of the stored results has its
/// key. Any other is shown.
pub proof fn stored_probe_hides_cached_one(
    rows: Seq<ProbeRowView>,
    entries: Seq<(Seq<char>, ProbeView)>,
    i: int,
)
    requires
        0 <= i < entries.len(),
        !is_cached_before(entries, i, entries[i].0),
    ensures
        shown_entry(rows, entries, i) is None <==> exists|j: int|
            0 <= j < rows.len() && row_key(#[trigger] rows[j]) == entries[i].0,
{
}

/// A stored result is shown field by field, each under its own name, under the key of
/// its provider, credential and model, and as a stored one.
pub proof fn stored_probe_is_shown_field_by_field(row: ProbeRowView)
    ensures
        ({
            let shown = persisted_probe(row);
            &&& shown->Object_0.len() == 18
            &&& shown.holds(
                "key"@,
                JsonView::Text(
                    cache_key_of(row.provider_id, row.credential_hash, row.upstream_model),
                ),
            )
            &&& shown.holds("source"@, JsonView::Text("persisted"@))
            &&& shown.holds("provider_id"@, JsonView::Text(row.provider_id))
            &&& shown.holds("credential_hash"@, JsonView::Text(row.credential_hash))
            &&& shown.holds("upstream_model"@, JsonView::Text(row.upstream_model))
            &&& shown.holds("wire_api"@, JsonView::Text(row.wire_api))
            &&& shown.holds("status"@, JsonView::Text(row.status))
            &&& shown.holds("expires_at"@, JsonView::Text(row.expires_at))
            &&& shown.holds("last_success_at"@, text_or_null(row.last_success_at))
            &&& shown.holds("last_failure_at"@, text_or_null(row.last_failure_at))
            &&& shown.holds("failure_kind"@, text_or_null(row.failure_kind))
            &&& shown.holds(
                "failure_message_redacted"@,
                text_or_null(row.failure_message_redacted),
            )
            &&& shown.holds(
                "supports_parallel_tool_calls"@,
                JsonView::Bool(
                    row.supports_parallel_tool_calls is Some && row.supports_parallel_tool_calls->0 != 0,
                ),
            )
            &&& shown.holds(
                "supports_previous_response_id"@,
                JsonView::Bool(
                    row.supports_previous_response_id is Some && row.supports_previous_response_id->0 != 0,
                ),
            )
            &&& shown.holds(
                "supports_reasoning_encrypted_content"@,
                JsonView::Bool(
                    row.supports_reasoning_encrypted_content is Some && row.supports_reasoning_encrypted_content->0 != 0,
                ),
            )
            &&& shown.holds(
                "supports_reasoning_summary"@,
                JsonView::Bool(
                    row.supports_reasoning_summary is Some && row.supports_reasoning_summary->0 != 0,
                ),
            )
            &&& shown.holds(
                "supports_streaming"@,
                JsonView::Bool(
                    row.supports_streaming is Some && row.supports_streaming->0 != 0,
                ),
            )
            &&& shown.holds(
                "supports_tools"@,
                JsonView::Bool(
                    row.supports_tools is Some && row.supports_tools->0 != 0,
                ),
            )
        }),
{
    let shown = persisted_probe(row);
    lemma_holds(shown, 0);
    lemma_holds(shown, 1);
    lemma_holds(shown, 2);
    lemma_holds(shown, 3);
    lemma_holds(shown, 4);
    lemma_holds(shown, 5);
    lemma_holds(shown, 6);
    lemma_holds(shown, 7);
    lemma_holds(shown, 8);
    lemma_holds(shown, 9);
    lemma_holds(shown, 10);
    lemma_holds(shown, 11);
    lemma_holds(shown, 12);
    lemma_holds(shown, 13);
    lemma_holds(shown, 14);
    lemma_holds(shown, 15);
    lemma_holds(shown, 16);
    lemma_holds(shown, 17);
}

/// A result of the cache is shown likewise, under its key in the cache, as one of the
/// cache and as a success.
pub proof fn cached_probe_is_shown_field_by_field(key: Seq<char>, probe: ProbeView)
    ensures
        ({
            let shown = cached_probe(key, probe);
            &&& shown->Object_0.len() == 18
            &&& shown.holds("key"@, JsonView::Text(key))
            &&& shown.holds("source"@, JsonView::Text("cache"@))
            &&& shown.holds("status"@, JsonView::Text("success"@))
            &&& shown.holds("provider_id"@, JsonView::Text(probe.provider_id))
            &&& shown.holds("credential_hash"@, JsonView::Text(probe.credential_hash))
            &&& shown.holds("upstream_model"@, JsonView::Text(probe.upstream_model))
            &&& shown.holds("wire_api"@, JsonView::Text(probe.wire_api.name()))
            &&& shown.holds("expires_at"@, integer(probe.expires_at))
            &&& shown.holds("last_success_at"@, integer_or_null(probe.last_success_at))
            &&& shown.holds("last_failure_at"@, integer_or_null(probe.last_failure_at))
            &&& shown.holds("failure_kind"@, text_or_null(probe.failure_kind))
            &&& shown.holds(
                "failure_message_redacted"@,
                text_or_null(probe.failure_message_redacted),
            )
            &&& shown.holds("supports_parallel_tool_calls"@, JsonView::Bool(probe.supports_parallel_tool_calls))
            &&& shown.holds("supports_previous_response_id"@, JsonView::Bool(probe.supports_previous_response_id))
            &&& shown.holds("supports_reasoning_encrypted_content"@, JsonView::Bool(probe.supports_reasoning_encrypted_content))
            &&& shown.holds("supports_reasoning_summary"@, JsonView::Bool(probe.supports_reasoning_summary))
            &&& shown.holds("supports_streaming"@, JsonView::Bool(probe.supports_streaming))
            &&& shown.holds("supports_tools"@, JsonView::Bool(probe.supports_tools))
        }),
{
    let shown = cached_probe(key, probe);
    lemma_holds(shown, 0);
    lemma_holds(shown, 1);
    lemma_holds(shown, 2);
    lemma_holds(shown, 3);
    lemma_holds(shown, 4);
    lemma_holds(shown, 5);
    lemma_holds(shown, 6);
    lemma_holds(shown, 7);
    lemma_holds(shown, 8);
    lemma_holds(shown, 9);
    lemma_holds(shown, 10);
    lemma_holds(shown, 11);
    lemma_holds(shown, 12);
    lemma_holds(shown, 13);
    lemma_holds(shown, 14);
    lemma_holds(shown, 15);
    lemma_holds(shown, 16);
    lemma_holds(shown, 17);
}

/// The stored results are listed first, all of them and in order; behind them those of
/// the cache that are neither stored nor listed already.
pub proof fn stored_probes_are_listed_first(
    rows: Seq<ProbeRowView>,
    entries: Seq<(Seq<char>, ProbeView)>,
    i: int,
)
    ensures
        listed_probes(rows, entries).len() >= rows.len(),
        0 <= i < rows.len() ==> listed_probes(rows, entries)[i] == persisted_probe(rows[i]),
        listed_probes(rows, entries).skip(rows.len() as int) == Seq::new(
            entries.len(),
            |k: int| shown_entry(rows, entries, k),
        ).filter(|shown: Option<JsonView>| shown is Some).map_values(
            |shown: Option<JsonView>| shown->0,
        ),
        0 <= i < entries.len() ==> (shown_entry(rows, entries, i) matches Some(shown) ==> shown
            == cached_probe(entries[i].0, entries[i].1)),
        0 <= i < entries.len() ==> (shown_entry(rows, entries, i) is None <==> {
            ||| exists|j: int|
                0 <= j < rows.len() && cache_key_of(
                    (#[trigger] rows[j]).provider_id,
                    rows[j].credential_hash,
                    rows[j].upstream_model,
                ) == entries[i].0
            ||| exists|j: int| 0 <= j < i && (#[trigger] entries[j]).0 == entries[i].0
        }),
{
    let shown = shown_entries(rows, entries);
    present_keeps_the_values(shown);
    assert(listed_probes(rows, entries).skip(rows.len() as int) =~= present(shown));
    assert(shown =~= Seq::new(entries.len(), |k: int| shown_entry(rows, entries, k)));
    if 0 <= i < entries.len() {
        let key = entries[i].0;
        if is_persisted(rows, key) {
            let j = choose|j: int| 0 <= j < rows.len() && row_key(#[trigger] rows[j]) == key;
            assert(cache_key_of(
                rows[j].provider_id,
                rows[j].credential_hash,
                rows[j].upstream_model,
            ) == key);
        }
        if exists|j: int|
            0 <= j < rows.len() && cache_key_of(
                (#[trigger] rows[j]).provider_id,
                rows[j].credential_hash,
                rows[j].upstream_model,
            ) == key {
            let j = choose|j: int|
                0 <= j < rows.len() && cache_key_of(
                    (#[trigger] rows[j]).provider_id,
                    rows[j].credential_hash,
                    rows[j].upstream_model,
                ) == key;
            assert(row_key(rows[j]) == key);
        }
    }
}

} // verus!
