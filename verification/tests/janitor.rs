use modelwire_server::janitor::{
    cleanup_report, cutoff, cutoff_at, find_expired_response_ids, responses_deleted,
    sqlite_delete_by_ids, sqlite_in_placeholders, sqlite_select_references, CleanupReport, Janitor,
    Reference, ResponsesDeleted, DEFAULT_LOG_TTL_SECS, DEFAULT_PROBE_TTL_SECS,
    DEFAULT_STATE_TTL_SECS, MAX_TTL_SECS,
};

fn texts(texts: &[&str]) -> Vec<String> {
    texts.iter().map(|text| text.to_string()).collect()
}

fn reference(previous: Option<&str>, non_expired: bool) -> Reference {
    Reference { previous_response_id: previous.map(|id| id.to_string()), non_expired }
}

#[test]
fn referenced_responses_are_kept() {
    let expired = texts(&["parent_resp", "other"]);
    let references = vec![reference(Some("parent_resp"), true)];
    assert_eq!(find_expired_response_ids(&expired, &references), texts(&["other"]));
}

#[test]
fn responses_of_expired_chains_are_deleted() {
    let expired = texts(&["orphan_parent", "orphan_child"]);
    let references = vec![reference(Some("orphan_parent"), false), reference(None, true)];
    assert_eq!(find_expired_response_ids(&expired, &references), expired);
    assert!(find_expired_response_ids(&Vec::new(), &references).is_empty());
}

#[test]
fn statements_hold_no_ids() {
    assert_eq!(sqlite_in_placeholders(0), "");
    assert_eq!(sqlite_in_placeholders(1), "?");
    assert_eq!(sqlite_in_placeholders(3), "?,?,?");
    assert_eq!(sqlite_delete_by_ids("responses", "id", 0), None);
    assert_eq!(
        sqlite_delete_by_ids("response_items", "response_id", 2).as_deref(),
        Some("DELETE FROM response_items WHERE response_id IN (?,?)")
    );
    assert_eq!(
        sqlite_select_references(2),
        "SELECT id, previous_response_id FROM responses WHERE previous_response_id IN (?,?)"
    );
}

#[test]
fn cleanups_report_what_succeeded() {
    let deleted = responses_deleted(&Ok(4), &Err("x".to_string()), &Ok(2));
    assert_eq!((deleted.responses, deleted.items, deleted.handles), (2, 4, 0));
    let report = cleanup_report(
        &Ok(1),
        &Err("x".to_string()),
        &Ok(ResponsesDeleted { responses: 2, items: 4, handles: 3 }),
        &Some(Ok(())),
    );
    assert_eq!(report.probes_deleted, 1);
    assert_eq!(report.logs_deleted, 0);
    assert_eq!(report.responses_deleted, 2);
    assert_eq!(report.response_items_deleted, 4);
    assert_eq!(report.handles_deleted, 3);
    assert!(report.vacuum_performed);
    let report = cleanup_report(&Ok(0), &Ok(5), &Err("y".to_string()), &Some(Err("z".to_string())));
    assert_eq!((report.logs_deleted, report.responses_deleted), (5, 0));
    assert!(!report.vacuum_performed);
    let empty = CleanupReport::default();
    assert_eq!(empty.responses_deleted, 0);
    assert!(!empty.vacuum_performed);
}

#[test]
fn janitors_have_their_times() {
    let janitor = Janitor::new();
    assert_eq!(janitor.state_ttl_secs, DEFAULT_STATE_TTL_SECS);
    assert_eq!(janitor.probe_ttl_secs, DEFAULT_PROBE_TTL_SECS);
    assert_eq!(janitor.log_ttl_secs, DEFAULT_LOG_TTL_SECS);
    assert_eq!(
        (DEFAULT_STATE_TTL_SECS, DEFAULT_PROBE_TTL_SECS, DEFAULT_LOG_TTL_SECS),
        (86400, 3600, 604800)
    );
    assert!(!janitor.should_vacuum(3_599_999_999_999));
    assert!(janitor.should_vacuum(3_600_000_000_000));
    let janitor = Janitor::with_ttls(1, 2, 3);
    assert_eq!((janitor.state_ttl_secs, janitor.probe_ttl_secs, janitor.log_ttl_secs), (1, 2, 3));
    assert_eq!(janitor.vacuum_interval_secs, 3600);
}

#[test]
fn cutoffs_lie_in_the_past() {
    let now = cutoff(0);
    let day_ago = cutoff(86400);
    assert!(day_ago < now);
    assert!(now.ends_with("+00:00"));
    assert!(cutoff(MAX_TTL_SECS).starts_with('-'));
}

#[test]
fn a_cutoff_is_the_time_so_long_before() {
    assert_eq!(cutoff_at(86_400, 1_700_000_000, 0), "2023-11-13T22:13:20+00:00");
    assert_eq!(cutoff_at(0, 1_700_000_000, 250_000_000), "2023-11-14T22:13:20.250+00:00");
}
