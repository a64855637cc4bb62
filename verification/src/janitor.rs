//! Cleaning of expired operational state: responses that nothing living
//! continues, results of probes, and request logs.

use crate::clock::{
    clock_now, is_clock_time, rfc3339_text, rfc3339_time, write_rfc3339, LAST_SECOND,
};
use crate::text::{join5, same};
use vstd::prelude::*;
use vstd::string::StringExecFns;

verus! {

/// How long responses are kept: a day.
pub const DEFAULT_STATE_TTL_SECS: u64 = 86400;

/// How long results of probes are kept: an hour.
pub const DEFAULT_PROBE_TTL_SECS: u64 = 3600;

/// How long request logs are kept: a week.
pub const DEFAULT_LOG_TTL_SECS: u64 = 604800;

/// How much time there is between two vacuums: an hour.
pub const VACUUM_INTERVAL_SECS: u64 = 3600;

/// The longest span that still leads to a date.
pub const MAX_TTL_SECS: u64 = 8_334_601_228_800;

/// Cleanup statistics report.
#[derive(Debug, Clone, Copy, PartialEq, Eq, Structural)]
pub struct CleanupReport {
    /// Number of response chains deleted.
    pub responses_deleted: u64,
    /// Number of response items deleted.
    pub response_items_deleted: u64,
    /// Number of upstream handles deleted.
    pub handles_deleted: u64,
    /// Number of probe results deleted.
    pub probes_deleted: u64,
    /// Number of request logs deleted.
    pub logs_deleted: u64,
    /// Whether vacuum was performed.
    pub vacuum_performed: bool,
}

/// The report of a cleanup that did nothing.
pub open spec fn nothing_cleaned() -> CleanupReport {
    CleanupReport {
        responses_deleted: 0,
        response_items_deleted: 0,
        handles_deleted: 0,
        probes_deleted: 0,
        logs_deleted: 0,
        vacuum_performed: false,
    }
}

impl Default for CleanupReport {
    fn default() -> (r: Self)
        ensures
            r == nothing_cleaned(),
    {
        CleanupReport {
            responses_deleted: 0,
            response_items_deleted: 0,
            handles_deleted: 0,
            probes_deleted: 0,
            logs_deleted: 0,
            vacuum_performed: false,
        }
    }
}

/// How many rows of a response were deleted.
#[derive(Debug, Clone, Copy, PartialEq, Eq, Structural)]
pub struct ResponsesDeleted {
    pub responses: u64,
    pub items: u64,
    pub handles: u64,
}

/// A count, and zero where there is none.
pub open spec fn count_or_zero(count: Result<u64, String>) -> u64 {
    match count {
        Ok(count) => count,
        Err(_) => 0,
    }
}

fn rows_or_zero(count: &Result<u64, String>) -> (r: u64)
    ensures
        r == count_or_zero(*count),
{
    match count {
        Ok(count) => *count,
        Err(_) => 0,
    }
}

/// What became of the rows of the responses that were deleted: a deletion that
/// failed counts as none.
pub fn responses_deleted(
    items: &Result<u64, String>,
    handles: &Result<u64, String>,
    responses: &Result<u64, String>,
) -> (r: ResponsesDeleted)
    ensures
        r == (ResponsesDeleted {
            responses: count_or_zero(*responses),
            items: count_or_zero(*items),
            handles: count_or_zero(*handles),
        }),
{
    ResponsesDeleted {
        responses: rows_or_zero(responses),
        items: rows_or_zero(items),
        handles: rows_or_zero(handles),
    }
}

/// The report of a cleanup. A part that failed is reported as nothing deleted,
/// and takes nothing from the other parts.
pub open spec fn report_of(
    probes: Result<u64, String>,
    logs: Result<u64, String>,
    responses: Result<ResponsesDeleted, String>,
    vacuum: Option<Result<(), String>>,
) -> CleanupReport {
    CleanupReport {
        responses_deleted: match responses {
            Ok(deleted) => deleted.responses,
            Err(_) => 0,
        },
        response_items_deleted: match responses {
            Ok(deleted) => deleted.items,
            Err(_) => 0,
        },
        handles_deleted: match responses {
            Ok(deleted) => deleted.handles,
            Err(_) => 0,
        },
        probes_deleted: count_or_zero(probes),
        logs_deleted: count_or_zero(logs),
        vacuum_performed: vacuum matches Some(Ok(_)),
    }
}

/// The report of a cleanup. `vacuum` is what came of the vacuum, where one was
/// due.
pub fn cleanup_report(
    probes: &Result<u64, String>,
    logs: &Result<u64, String>,
    responses: &Result<ResponsesDeleted, String>,
    vacuum: &Option<Result<(), String>>,
) -> (r: CleanupReport)
    ensures
        r == report_of(*probes, *logs, *responses, *vacuum),
{
    let mut report = CleanupReport::default();
    report.probes_deleted = rows_or_zero(probes);
    report.logs_deleted = rows_or_zero(logs);
    if let Ok(deleted) = responses {
        report.responses_deleted = deleted.responses;
        report.response_items_deleted = deleted.items;
        report.handles_deleted = deleted.handles;
    }
    if let Some(Ok(_)) = vacuum {
        report.vacuum_performed = true;
    }
    report
}

/// How long things are kept, in seconds.
#[derive(Debug, Clone, Copy, PartialEq, Eq, Structural)]
pub struct Janitor {
    pub state_ttl_secs: u64,
    pub probe_ttl_secs: u64,
    pub log_ttl_secs: u64,
    pub vacuum_interval_secs: u64,
}

impl Janitor {
    /// A janitor with the default spans.
    pub fn new() -> (r: Janitor)
        ensures
            r == (Janitor {
                state_ttl_secs: 86400,
                probe_ttl_secs: 3600,
                log_ttl_secs: 604800,
                vacuum_interval_secs: 3600,
            }),
    {
        Janitor {
            state_ttl_secs: DEFAULT_STATE_TTL_SECS,
            probe_ttl_secs: DEFAULT_PROBE_TTL_SECS,
            log_ttl_secs: DEFAULT_LOG_TTL_SECS,
            vacuum_interval_secs: VACUUM_INTERVAL_SECS,
        }
    }

    /// A janitor with spans of its own; the vacuums stay an hour apart.
    pub fn with_ttls(state_ttl_secs: u64, probe_ttl_secs: u64, log_ttl_secs: u64) -> (r: Janitor)
        ensures
            r == (Janitor {
                state_ttl_secs,
                probe_ttl_secs,
                log_ttl_secs,
                vacuum_interval_secs: 3600,
            }),
    {
        Janitor {
            state_ttl_secs,
            probe_ttl_secs,
            log_ttl_secs,
            vacuum_interval_secs: VACUUM_INTERVAL_SECS,
        }
    }

    /// Whether a vacuum is due, so long after the last one.
    pub fn should_vacuum(&self, elapsed_nanos: u128) -> (r: bool)
        ensures
            r == (elapsed_nanos >= self.vacuum_interval_secs * 1_000_000_000),
    {
        let interval: u128 = self.vacuum_interval_secs as u128 * 1_000_000_000;
        elapsed_nanos >= interval
    }
}

/// The moment so many seconds before another, as it is stored.
pub open spec fn cutoff_text(ttl_secs: u64, now_secs: i64, now_nanos: u32) -> Seq<char> {
    rfc3339_text((now_secs - ttl_secs) as i64, now_nanos)
}

/// The time so long before a moment, as it is stored. It reads as that time in
/// the years from 0 to 9999.
pub fn cutoff_at(ttl_secs: u64, now_secs: i64, now_nanos: u32) -> (r: String)
    requires
        ttl_secs <= MAX_TTL_SECS,
        0 <= now_secs <= LAST_SECOND,
        now_nanos < 1_000_000_000,
    ensures
        r@ == cutoff_text(ttl_secs, now_secs, now_nanos),
        -62_167_219_200 <= now_secs - ttl_secs <= 253_402_300_799 ==> rfc3339_time(r@) == Some(
            (now_secs - ttl_secs) as i64,
        ),
{
    write_rfc3339(now_secs - ttl_secs as i64, now_nanos)
}

/// The time so long ago, as it is stored.
pub fn cutoff(ttl_secs: u64) -> (r: String)
    requires
        ttl_secs <= MAX_TTL_SECS,
    ensures
        exists|secs: i64, nanos: u32| #[trigger]
            is_clock_time(secs, nanos) && r@ == cutoff_text(ttl_secs, secs, nanos),
{
    let now = clock_now();
    let r = cutoff_at(ttl_secs, now.0, now.1);
    assert(is_clock_time(now.0, now.1));
    r
}

/// So many question marks with commas between.
pub open spec fn placeholders(count: nat) -> Seq<char>
    decreases count,
{
    if count == 0 {
        Seq::empty()
    } else if count == 1 {
        "?"@
    } else {
        placeholders((count - 1) as nat) + ",?"@
    }
}

/// Build a SQLite placeholder list like "?,?,?" for `IN` clauses.
pub fn sqlite_in_placeholders(count: usize) -> (r: String)
    ensures
        r@ == placeholders(count as nat),
{
    let mut text: String = "".to_owned();
    proof {
        reveal_strlit("");
        assert(text@ =~= Seq::empty());
    }
    let mut i: usize = 0;
    while i < count
        invariant
            i <= count,
            text@ == placeholders(i as nat),
        decreases count - i,
    {
        if i == 0 {
            text = "?".to_owned();
        } else {
            text.append(",?");
        }
        i = i + 1;
    }
    text
}

/// The statement that deletes the rows of so many ids. The ids themselves are
/// bound, and never stand in it.
pub open spec fn delete_statement(table: Seq<char>, column: Seq<char>, count: nat) -> Seq<char> {
    "DELETE FROM "@ + table + " WHERE "@ + column + " IN ("@ + placeholders(count) + ")"@
}

/// The statement that deletes the rows of so many ids from a SQLite table; none
/// is needed for no ids.
pub fn sqlite_delete_by_ids(table: &str, column: &str, count: usize) -> (r: Option<String>)
    ensures
        r.deep_view() == (if count == 0 {
            None
        } else {
            Some(delete_statement(table@, column@, count as nat))
        }),
{
    if count == 0 {
        return None;
    }
    let marks = sqlite_in_placeholders(count);
    let mut sql = join5("DELETE FROM ", table, " WHERE ", column, " IN (");
    sql.append(marks.as_str());
    sql.append(")");
    Some(sql)
}

/// The statement that finds what continues so many responses.
pub fn sqlite_select_references(count: usize) -> (r: String)
    ensures
        r@
            == "SELECT id, previous_response_id FROM responses WHERE previous_response_id IN ("@
            + placeholders(count as nat) + ")"@,
{
    let marks = sqlite_in_placeholders(count);
    let mut sql: String =
        "SELECT id, previous_response_id FROM responses WHERE previous_response_id IN (".to_owned();
    sql.append(marks.as_str());
    sql.append(")");
    sql
}

/// A response that continues another one.
#[derive(Debug)]
pub struct Reference {
    pub previous_response_id: Option<String>,
    /// Whether the response that continues has not expired itself.
    pub non_expired: bool,
}

/// The mathematical value of a [`Reference`].
#[verifier::ext_equal]
pub struct ReferenceView {
    pub previous_response_id: Option<Seq<char>>,
    pub non_expired: bool,
}

impl DeepView for Reference {
    type V = ReferenceView;

    open spec fn deep_view(&self) -> ReferenceView {
        ReferenceView {
            previous_response_id: self.previous_response_id.deep_view(),
            non_expired: self.non_expired,
        }
    }
}

/// Whether a response that has not expired continues the one of this id.
pub open spec fn is_referenced(references: Seq<ReferenceView>, id: Seq<char>) -> bool {
    exists|i: int|
        0 <= i < references.len() && (#[trigger] references[i]).non_expired
            && references[i].previous_response_id == Some(id)
}

/// The ids of the expired responses that nothing living continues, in order.
pub open spec fn deletable(expired: Seq<Seq<char>>, references: Seq<ReferenceView>) -> Seq<
    Seq<char>,
>
    decreases expired.len(),
{
    if expired.len() == 0 {
        Seq::empty()
    } else {
        let front = deletable(expired.drop_last(), references);
        if is_referenced(references, expired.last()) {
            front
        } else {
            front.push(expired.last())
        }
    }
}

fn references_id(references: &Vec<Reference>, id: &str) -> (r: bool)
    ensures
        r == is_referenced(references.deep_view(), id@),
{
    let ghost views = references.deep_view();
    let mut i: usize = 0;
    while i < references.len()
        invariant
            i <= references.len(),
            views == references.deep_view(),
            forall|j: int|
                0 <= j < i ==> !((#[trigger] views[j]).non_expired
                    && views[j].previous_response_id == Some(id@)),
        decreases references.len() - i,
    {
        assert(views[i as int] == references@[i as int].deep_view());
        if references[i].non_expired {
            if let Some(previous) = &references[i].previous_response_id {
                if same(previous.as_str(), id) {
                    return true;
                }
            }
        }
        i = i + 1;
    }
    false
}

/// The ids of the expired responses that nothing living continues, given the
/// responses that continue any of them.
pub fn find_expired_response_ids(
    expired: &Vec<String>,
    references: &Vec<Reference>,
) -> (ids: Vec<String>)
    ensures
        ids.deep_view() == deletable(expired.deep_view(), references.deep_view()),
{
    let ghost views = expired.deep_view();
    let mut ids: Vec<String> = Vec::new();
    let mut i: usize = 0;
    assert(views.take(0) =~= Seq::empty());
    assert(ids.deep_view() =~= Seq::empty());
    while i < expired.len()
        invariant
            i <= expired.len(),
            views == expired.deep_view(),
            ids.deep_view() == deletable(views.take(i as int), references.deep_view()),
        decreases expired.len() - i,
    {
        assert(views.take(i + 1).drop_last() =~= views.take(i as int));
        if !references_id(references, expired[i].as_str()) {
            let ghost before = ids.deep_view();
            let id = expired[i].clone();
            let ghost shown = id@;
            ids.push(id);
            assert(ids.deep_view() =~= before.push(shown));
        }
        i = i + 1;
    }
    assert(views.take(views.len() as int) =~= views);
    ids
}

/// A response in the store, as far as its expiry goes.
#[verifier::ext_equal]
pub struct StoredResponse {
    pub id: Seq<char>,
    pub previous_response_id: Option<Seq<char>>,
    pub completed_at: Option<int>,
}

/// Whether a response has expired: it is completed, and was so before the cutoff.
pub open spec fn has_expired(row: StoredResponse, cutoff: int) -> bool {
    row.completed_at matches Some(time) && time < cutoff
}

/// The ids of the expired responses of a store.
pub open spec fn expired_ids(rows: Seq<StoredResponse>, cutoff: int) -> Seq<Seq<char>>
    decreases rows.len(),
{
    if rows.len() == 0 {
        Seq::empty()
    } else {
        let front = expired_ids(rows.drop_last(), cutoff);
        if has_expired(rows.last(), cutoff) {
            front.push(rows.last().id)
        } else {
            front
        }
    }
}

/// What the responses of a store continue, with whether they have expired.
pub open spec fn references_of(rows: Seq<StoredResponse>, cutoff: int) -> Seq<ReferenceView> {
    rows.map_values(
        |row: StoredResponse|
            ReferenceView {
                previous_response_id: row.previous_response_id,
                non_expired: !has_expired(row, cutoff),
            },
    )
}

/// A response is deleted exactly where it has expired and no response that has
/// not expired continues it: the history of a living conversation is never cut,
/// and no chain that is dead from end to end stays behind.
pub proof fn living_chains_are_kept(rows: Seq<StoredResponse>, cutoff: int, id: Seq<char>)
    ensures
        deletable(expired_ids(rows, cutoff), references_of(rows, cutoff)).contains(id) <==> (exists|
            i: int,
        |
            0 <= i < rows.len() && (#[trigger] rows[i]).id == id && has_expired(rows[i], cutoff))
            && (forall|j: int|
            0 <= j < rows.len() && (#[trigger] rows[j]).previous_response_id == Some(id)
                ==> has_expired(rows[j], cutoff)),
{
    let references = references_of(rows, cutoff);
    lemma_deletable(expired_ids(rows, cutoff), references, id);
    lemma_expired_ids(rows, cutoff, id);
    if is_referenced(references, id) {
        let i = choose|i: int|
            0 <= i < references.len() && (#[trigger] references[i]).non_expired
                && references[i].previous_response_id == Some(id);
        assert(rows[i].previous_response_id == Some(id));
    } else {
        assert forall|j: int|
            0 <= j < rows.len() && (#[trigger] rows[j]).previous_response_id == Some(
                id,
            ) implies has_expired(rows[j], cutoff) by {
            assert(references[j].previous_response_id == Some(id));
        }
    }
}

proof fn lemma_deletable(
    expired: Seq<Seq<char>>,
    references: Seq<ReferenceView>,
    id: Seq<char>,
)
    ensures
        deletable(expired, references).contains(id) <==> expired.contains(id) && !is_referenced(
            references,
            id,
        ),
    decreases expired.len(),
{
    if expired.len() > 0 {
        let rest = expired.drop_last();
        let front = deletable(rest, references);
        lemma_deletable(rest, references, id);
        assert(expired =~= rest.push(expired.last()));
        lemma_push_contains(rest, expired.last(), id);
        lemma_push_contains(front, expired.last(), id);
    }
}

proof fn lemma_push_contains(s: Seq<Seq<char>>, last: Seq<char>, id: Seq<char>)
    ensures
        s.push(last).contains(id) <==> s.contains(id) || last == id,
{
    if s.contains(id) {
        let i = choose|i: int| 0 <= i < s.len() && s[i] == id;
        assert(s.push(last)[i] == id);
    }
    if last == id {
        assert(s.push(last)[s.len() as int] == id);
    }
}

proof fn lemma_expired_ids(rows: Seq<StoredResponse>, cutoff: int, id: Seq<char>)
    ensures
        expired_ids(rows, cutoff).contains(id) <==> exists|i: int|
            0 <= i < rows.len() && (#[trigger] rows[i]).id == id && has_expired(rows[i], cutoff),
    decreases rows.len(),
{
    if rows.len() > 0 {
        let rest = rows.drop_last();
        lemma_expired_ids(rest, cutoff, id);
        lemma_push_contains(expired_ids(rest, cutoff), rows.last().id, id);
        if expired_ids(rest, cutoff).contains(id) {
            let i = choose|i: int|
                0 <= i < rest.len() && (#[trigger] rest[i]).id == id && has_expired(
                    rest[i],
                    cutoff,
                );
            assert(rows[i].id == id && has_expired(rows[i], cutoff));
        }
        if exists|i: int|
            0 <= i < rows.len() && (#[trigger] rows[i]).id == id && has_expired(rows[i], cutoff) {
            let i = choose|i: int|
                0 <= i < rows.len() && (#[trigger] rows[i]).id == id && has_expired(
                    rows[i],
                    cutoff,
                );
            if i < rest.len() {
                assert(rest[i].id == id && has_expired(rest[i], cutoff));
            } else {
                assert(rows[i] == rows.last());
            }
        }
        if has_expired(rows.last(), cutoff) && rows.last().id == id {
            assert(rows[rows.len() - 1].id == id);
        }
    }
}

/// A part of a cleanup that fails does not stop the others: their counts are
/// reported as if it had not been tried.
pub proof fn failures_stay_apart(
    probes: Result<u64, String>,
    logs: Result<u64, String>,
    responses: Result<ResponsesDeleted, String>,
    vacuum: Option<Result<(), String>>,
    detail: String,
)
    ensures
        report_of(Err(detail), logs, responses, vacuum) == (CleanupReport {
            probes_deleted: 0,
            ..report_of(probes, logs, responses, vacuum)
        }),
        report_of(probes, Err(detail), responses, vacuum) == (CleanupReport {
            logs_deleted: 0,
            ..report_of(probes, logs, responses, vacuum)
        }),
{
}

/// Each part of a cleanup is reported under its own name, as it was counted.
pub proof fn cleanup_is_reported_part_by_part(
    probes: u64,
    logs: u64,
    deleted: ResponsesDeleted,
    vacuum: Option<Result<(), String>>,
    detail: String,
)
    ensures
        ({
            let report = report_of(Ok(probes), Ok(logs), Ok(deleted), vacuum);
            &&& report.probes_deleted == probes && report.logs_deleted == logs
            &&& report.responses_deleted == deleted.responses
            &&& report.response_items_deleted == deleted.items
            &&& report.handles_deleted == deleted.handles
            &&& report.vacuum_performed <==> vacuum is Some && vacuum->0 is Ok
        }),
        ({
            let report = report_of(Ok(probes), Ok(logs), Err(detail), vacuum);
            &&& report.responses_deleted == 0 && report.response_items_deleted == 0
                && report.handles_deleted == 0
            &&& report.probes_deleted == probes && report.logs_deleted == logs
        }),
        ({
            let report = nothing_cleaned();
            &&& report.responses_deleted == 0 && report.response_items_deleted == 0
            &&& report.handles_deleted == 0 && report.probes_deleted == 0 && report.logs_deleted
                == 0 && !report.vacuum_performed
        }),
{
}

/// A statement has one question mark for each id, with a comma between any two and none
/// elsewhere.
pub proof fn one_mark_for_each_id(count: nat, i: int)
    ensures
        count > 0 ==> placeholders(count).len() == 2 * count - 1,
        count == 0 ==> placeholders(count).len() == 0,
        0 <= i < placeholders(count).len() ==> placeholders(count)[i] == if i % 2 == 0 {
            '?'
        } else {
            ','
        },
    decreases count,
{
    reveal_strlit("?");
    reveal_strlit(",?");
    if count > 1 {
        one_mark_for_each_id((count - 1) as nat, i);
        let front = placeholders((count - 1) as nat);
        assert(",?"@.len() == 2 && ",?"@[0] == ',' && ",?"@[1] == '?');
        if i == front.len() {
            assert(placeholders(count)[i] == ',');
        } else if i == front.len() + 1 {
            assert(placeholders(count)[i] == '?');
        }
    }
}

/// Ids are deleted in the order in which they were found expired, and of each just as
/// often, where nothing living continues it.
pub proof fn unreferenced_ids_are_deleted(expired: Seq<Seq<char>>, references: Seq<ReferenceView>)
    ensures
        deletable(expired, references) == expired.filter(
            |id: Seq<char>| !is_referenced(references, id),
        ),
    decreases expired.len(),
{
    reveal(Seq::filter);
    if expired.len() > 0 {
        unreferenced_ids_are_deleted(expired.drop_last(), references);
    }
}

/// A response has expired just where it was completed before the cutoff; one that is
/// still under way never has.
pub proof fn expiry_counts_from_completion(row: StoredResponse, cutoff: int)
    ensures
        row.completed_at is None ==> !has_expired(row, cutoff),
        row.completed_at matches Some(time) ==> (has_expired(row, cutoff) <==> time < cutoff),
{
}

/// The cutoff lies as many seconds before the time as it is told to.
pub proof fn cutoff_lies_before_the_time(ttl_secs: u64, now_secs: i64, now_nanos: u32)
    requires
        ttl_secs <= now_secs,
    ensures
        cutoff_text(ttl_secs, now_secs, now_nanos) == cutoff_text(
            0,
            (now_secs - ttl_secs) as i64,
            now_nanos,
        ),
        cutoff_text(0, now_secs, now_nanos) == rfc3339_text(now_secs, now_nanos),
{
}

/// A statement deletes from its own table by its own column, and binds as many ids as
/// it was made for.
pub proof fn statement_names_table_and_column(table: Seq<char>, column: Seq<char>, count: nat)
    ensures
        ({
            let statement = delete_statement(table, column, count);
            let front = "DELETE FROM "@ + table + " WHERE "@ + column + " IN ("@;
            &&& statement.take(front.len() as int) == front
            &&& statement.skip(front.len() as int) == placeholders(count) + ")"@
        }),
{
    let statement = delete_statement(table, column, count);
    let front = "DELETE FROM "@ + table + " WHERE "@ + column + " IN ("@;
    assert(statement.take(front.len() as int) =~= front);
    assert(statement.skip(front.len() as int) =~= placeholders(count) + ")"@);
}

} // verus!
