//! The request log and the figures of the running relay.

use crate::json::{
    add_item, add_member, array_of, integer, integer_or_null, integer_value, lemma_holds,
    no_members, object_of, opt_integer_value, opt_text_value, text_or_null, text_value, Json, JsonView,
};
use crate::store::{LogRecord, LogRecordView};
use crate::text::{i32_of_text, parse_i32, signed_decimal, signed_decimal_reads_back};
use vstd::prelude::*;

verus! {

/// How many lines are asked for: a hundred where no number is given.
pub open spec fn limit_of(param: Option<Seq<char>>) -> i32 {
    match param {
        Some(text) => match i32_of_text(text) {
            Some(limit) => limit,
            None => 100,
        },
        None => 100,
    }
}

/// How many lines are asked for.
pub fn log_limit(param: Option<&str>) -> (r: i32)
    ensures
        r == limit_of(param.deep_view()),
{
    match param {
        Some(text) => match parse_i32(text) {
            Some(limit) => limit,
            None => 100,
        },
        None => 100,
    }
}

/// A line of the log as it is shown.
pub open spec fn shown_log(row: LogRecordView) -> JsonView {
    JsonView::Object(
        seq![
            ("created_at"@, JsonView::Text(row.created_at)),
            ("downstream_key_hash"@, text_or_null(row.downstream_key_hash)),
            ("downstream_model"@, text_or_null(row.downstream_model)),
            ("error_kind"@, text_or_null(row.error_kind)),
            ("id"@, JsonView::Text(row.id)),
            ("input_tokens"@, integer_or_null(row.input_tokens)),
            ("latency_ms"@, integer_or_null(row.latency_ms)),
            ("output_tokens"@, integer_or_null(row.output_tokens)),
            ("provider_id"@, text_or_null(row.provider_id)),
            ("reasoning_tokens"@, integer_or_null(row.reasoning_tokens)),
            ("request_id"@, JsonView::Text(row.request_id)),
            ("route_id"@, text_or_null(row.route_id)),
            ("status_code"@, integer_or_null(row.status_code)),
            ("target_id"@, text_or_null(row.target_id)),
            ("upstream_model"@, text_or_null(row.upstream_model)),
            ("wire_api"@, text_or_null(row.wire_api)),
        ],
    )
}

fn log_value(row: &LogRecord) -> (r: Json)
    ensures
        r@ == shown_log(row.deep_view()),
{
    let mut members = no_members();
    add_member(&mut members, "created_at", text_value(row.created_at.as_str()));
    add_member(&mut members, "downstream_key_hash", opt_text_value(&row.downstream_key_hash));
    add_member(&mut members, "downstream_model", opt_text_value(&row.downstream_model));
    add_member(&mut members, "error_kind", opt_text_value(&row.error_kind));
    add_member(&mut members, "id", text_value(row.id.as_str()));
    add_member(&mut members, "input_tokens", opt_integer_value(row.input_tokens));
    add_member(&mut members, "latency_ms", opt_integer_value(row.latency_ms));
    add_member(&mut members, "output_tokens", opt_integer_value(row.output_tokens));
    add_member(&mut members, "provider_id", opt_text_value(&row.provider_id));
    add_member(&mut members, "reasoning_tokens", opt_integer_value(row.reasoning_tokens));
    add_member(&mut members, "request_id", text_value(row.request_id.as_str()));
    add_member(&mut members, "route_id", opt_text_value(&row.route_id));
    add_member(&mut members, "status_code", opt_integer_value(row.status_code));
    add_member(&mut members, "target_id", opt_text_value(&row.target_id));
    add_member(&mut members, "upstream_model", opt_text_value(&row.upstream_model));
    add_member(&mut members, "wire_api", opt_text_value(&row.wire_api));
    assert(members.deep_view() =~= shown_log(row.deep_view())->Object_0);
    object_of(members)
}

/// The lines of the log that are shown, with how many there are in all. Where
/// that could not be counted, it is the number of lines shown.
pub open spec fn listed_logs(
    rows: Seq<LogRecordView>,
    total: Option<i64>,
    limit: i32,
) -> JsonView {
    JsonView::Object(
        seq![
            ("limit"@, integer(limit as i64)),
            (
                "logs"@,
                JsonView::Array(rows.map_values(|row: LogRecordView| shown_log(row))),
            ),
            (
                "total"@,
                integer(
                    match total {
                        Some(total) => total,
                        None => rows.len() as i64,
                    },
                ),
            ),
        ],
    )
}

/// The lines of the log that are shown.
pub fn list_logs(rows: &Vec<LogRecord>, total: Option<i64>, limit: i32) -> (r: Json)
    requires
        rows.len() <= i64::MAX,
    ensures
        r@ == listed_logs(rows.deep_view(), total, limit),
{
    let ghost wanted = rows.deep_view().map_values(|row: LogRecordView| shown_log(row));
    let mut logs: Vec<Json> = Vec::new();
    let mut i: usize = 0;
    assert(logs.deep_view() =~= wanted.take(0));
    while i < rows.len()
        invariant
            i <= rows.len(),
            wanted == rows.deep_view().map_values(|row: LogRecordView| shown_log(row)),
            logs.deep_view() == wanted.take(i as int),
        decreases rows.len() - i,
    {
        add_item(&mut logs, log_value(&rows[i]));
        assert(logs.deep_view() =~= wanted.take(i + 1));
        i = i + 1;
    }
    assert(wanted.take(wanted.len() as int) =~= wanted);
    assert(rows.deep_view().len() == rows@.len());
    let count: i64 = match total {
        Some(total) => total,
        None => rows.len() as i64,
    };
    let mut members = no_members();
    add_member(&mut members, "limit", integer_value(limit as i64));
    add_member(&mut members, "logs", array_of(logs));
    add_member(&mut members, "total", integer_value(count));
    let r = object_of(members);
    assert(r@->Object_0 =~= listed_logs(
        rows.deep_view(),
        total,
        limit,
    )->Object_0);
    r
}

/// The figures of the running relay.
pub open spec fn metrics(routes: u64, providers: u64, probes: u64) -> JsonView {
    JsonView::Object(
        seq![
            ("probe_cache_size"@, JsonView::Uint(probes)),
            ("providers_count"@, JsonView::Uint(providers)),
            ("routes_count"@, JsonView::Uint(routes)),
        ],
    )
}

/// The figures of the running relay.
pub fn get_metrics(routes: usize, providers: usize, probes: usize) -> (r: Json)
    ensures
        r@ == metrics(routes as u64, providers as u64, probes as u64),
{
    let mut members = no_members();
    add_member(&mut members, "probe_cache_size", Json::Uint(probes as u64));
    add_member(&mut members, "providers_count", Json::Uint(providers as u64));
    add_member(&mut members, "routes_count", Json::Uint(routes as u64));
    assert(members.deep_view() =~= metrics(
        routes as u64,
        providers as u64,
        probes as u64,
    )->Object_0);
    object_of(members)
}

/// As many lines are asked for as the parameter says, and a hundred where it says no
/// number.
pub proof fn limit_is_the_one_asked_for(n: i32, text: Seq<char>)
    ensures
        limit_of(Some(signed_decimal(n as int))) == n,
        i32_of_text(text) is None ==> limit_of(Some(text)) == 100,
        limit_of(None) == 100,
{
    signed_decimal_reads_back(n);
}

/// A line of the log is shown field by field, each under its own name.
pub proof fn log_line_is_shown_field_by_field(row: LogRecordView)
    ensures
        ({
            let shown = shown_log(row);
            &&& shown->Object_0.len() == 16
            &&& shown.holds("id"@, JsonView::Text(row.id))
            &&& shown.holds("request_id"@, JsonView::Text(row.request_id))
            &&& shown.holds("created_at"@, JsonView::Text(row.created_at))
            &&& shown.holds("downstream_key_hash"@, text_or_null(row.downstream_key_hash))
            &&& shown.holds("downstream_model"@, text_or_null(row.downstream_model))
            &&& shown.holds("route_id"@, text_or_null(row.route_id))
            &&& shown.holds("target_id"@, text_or_null(row.target_id))
            &&& shown.holds("provider_id"@, text_or_null(row.provider_id))
            &&& shown.holds("upstream_model"@, text_or_null(row.upstream_model))
            &&& shown.holds("wire_api"@, text_or_null(row.wire_api))
            &&& shown.holds("error_kind"@, text_or_null(row.error_kind))
            &&& shown.holds("status_code"@, integer_or_null(row.status_code))
            &&& shown.holds("latency_ms"@, integer_or_null(row.latency_ms))
            &&& shown.holds("input_tokens"@, integer_or_null(row.input_tokens))
            &&& shown.holds("output_tokens"@, integer_or_null(row.output_tokens))
            &&& shown.holds("reasoning_tokens"@, integer_or_null(row.reasoning_tokens))
        }),
{
    let shown = shown_log(row);
    lemma_holds(shown, 0);
    lemma_holds(shown, 1);
    lemma_holds(shown, 2);
    lemma_holds(shown, 3);
    lemma_holds(shown, 4);
    lemma_holds(shown, 5);
    lemma_holds(shown, 6);
    lemma_holds(shown, 7);
    lemma_holds(shown, 8);
    lemma_holds(shown, 9);
    lemma_holds(shown, 10);
    lemma_holds(shown, 11);
    lemma_holds(shown, 12);
    lemma_holds(shown, 13);
    lemma_holds(shown, 14);
    lemma_holds(shown, 15);
}

/// The lines are shown in order, with the limit and with how many there are in all; a
/// total that is not known is the number shown.
pub proof fn log_lines_are_listed_in_order(
    rows: Seq<LogRecordView>,
    total: Option<i64>,
    limit: i32,
)
    requires
        rows.len() <= i64::MAX,
    ensures
        ({
            let listed = listed_logs(rows, total, limit);
            let lines = rows.map_values(|row: LogRecordView| shown_log(row));
            &&& listed.holds("limit"@, integer(limit as i64))
            &&& listed.holds("logs"@, JsonView::Array(lines))
            &&& total matches Some(total) ==> listed.holds("total"@, integer(total))
            &&& total is None ==> listed.holds("total"@, integer(rows.len() as i64))
            &&& listed->Object_0.len() == 3
        }),
{
    let listed = listed_logs(rows, total, limit);
    lemma_holds(listed, 0);
    lemma_holds(listed, 1);
    lemma_holds(listed, 2);
}

/// Each figure is told under its own name.
pub proof fn figures_are_told_by_name(routes: u64, providers: u64, probes: u64)
    ensures
        metrics(routes, providers, probes).holds("routes_count"@, JsonView::Uint(routes)),
        metrics(routes, providers, probes).holds("providers_count"@, JsonView::Uint(providers)),
        metrics(routes, providers, probes).holds("probe_cache_size"@, JsonView::Uint(probes)),
        metrics(routes, providers, probes)->Object_0.len() == 3,
{
    let figures = metrics(routes, providers, probes);
    lemma_holds(figures, 0);
    lemma_holds(figures, 1);
    lemma_holds(figures, 2);
}

} // verus!
