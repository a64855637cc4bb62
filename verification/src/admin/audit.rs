//! The record of what administrators did.

use crate::ids::fresh_v4;
use crate::json::{
    add_member, lemma_member_at, no_members, object_of, render_json, rendered_json, Json, JsonView,
};
use crate::relay::target::{bearer_key_follows_the_word, bearer_of, strip_bearer};
use crate::store::{LogEntry, LogView};
use crate::text::join2;
use vstd::prelude::*;

verus! {

/// The token of an administrator; a word that stands for one where there is none.
pub open spec fn actor_token_of(authorization: Option<Seq<char>>) -> Seq<char> {
    match authorization {
        Some(value) => match bearer_of(value) {
            Some(token) => token,
            None => "admin"@,
        },
        None => "admin"@,
    }
}

/// The token of an administrator, whose hash stands for them.
pub fn actor_token(authorization: Option<&str>) -> (r: String)
    ensures
        r@ == actor_token_of(authorization.deep_view()),
{
    match authorization {
        Some(value) => match strip_bearer(value) {
            Some(token) => token.to_owned(),
            None => "admin".to_owned(),
        },
        None => "admin".to_owned(),
    }
}

/// The secret under which the tokens of administrators are hashed.
pub fn actor_secret(log_secret: &Option<String>) -> (r: String)
    ensures
        r@ == (match log_secret.deep_view() {
            Some(secret) => secret,
            None => "modelwire-admin-audit-default-secret"@,
        }),
{
    match log_secret {
        Some(secret) => secret.clone(),
        None => "modelwire-admin-audit-default-secret".to_owned(),
    }
}

/// What stands for an administrator. `digest` is the hash of [`actor_token`]
/// under [`actor_secret`].
pub fn admin_actor_hash(digest: &str) -> (r: String)
    ensures
        r@ == "admin:"@ + digest@,
{
    join2("admin:", digest)
}

/// What was there before and after a change.
pub open spec fn diff(before: JsonView, after: JsonView) -> JsonView {
    JsonView::Object(seq![("after"@, after), ("before"@, before)])
}

/// What was there before and after a change, as text. Both have to be redacted.
pub fn to_redacted_diff_json(before: Json, after: Json) -> (r: String)
    ensures
        r@ == rendered_json(diff(before@, after@)),
{
    let ghost old_view = before@;
    let ghost new_view = after@;
    let mut members = no_members();
    add_member(&mut members, "after", after);
    add_member(&mut members, "before", before);
    let json = object_of(members);
    assert(json@->Object_0 =~= diff(old_view, new_view)->Object_0);
    render_json(&json)
}

/// A record of what an administrator did.
#[derive(Debug)]
pub struct AdminAuditInsert {
    pub id: String,
    pub request_id: String,
    pub actor_key_hash: String,
    pub action: String,
    pub resource_type: String,
    pub resource_id: String,
    pub diff_json: String,
}

/// Whether a record tells of this.
pub open spec fn tells_of(
    record: AdminAuditInsert,
    request_id: Seq<char>,
    actor_hash: Seq<char>,
    action: Seq<char>,
    resource_type: Seq<char>,
    resource_id: Seq<char>,
    diff_json: Seq<char>,
) -> bool {
    &&& record.request_id@ == request_id
    &&& record.actor_key_hash@ == actor_hash
    &&& record.action@ == action
    &&& record.resource_type@ == resource_type
    &&& record.resource_id@ == resource_id
    &&& record.diff_json@ == diff_json
}

/// The record of what an administrator did, under a fresh id.
pub fn admin_audit_event(
    request_id: &str,
    actor_hash: &str,
    action: &str,
    resource_type: &str,
    resource_id: &str,
    diff_json: &str,
) -> (r: AdminAuditInsert)
    ensures
        tells_of(
            r,
            request_id@,
            actor_hash@,
            action@,
            resource_type@,
            resource_id@,
            diff_json@,
        ),
        exists|fresh: Seq<char>| r.id@ == #[trigger] ("audit_"@ + fresh),
{
    let fresh = fresh_v4();
    let id = join2("audit_", fresh.as_str());
    assert(id@ == "audit_"@ + fresh@);
    AdminAuditInsert {
        id,
        request_id: request_id.to_owned(),
        actor_key_hash: actor_hash.to_owned(),
        action: action.to_owned(),
        resource_type: resource_type.to_owned(),
        resource_id: resource_id.to_owned(),
        diff_json: diff_json.to_owned(),
    }
}

/// The log line of a record that could not be written.
pub open spec fn audit_failure(request_id: Seq<char>, actor_hash: Seq<char>) -> LogView {
    LogView {
        request_id,
        downstream_key_hash: Some(actor_hash),
        downstream_model: None,
        route_id: None,
        target_id: None,
        provider_id: None,
        upstream_model: None,
        wire_api: None,
        status_code: Some(500),
        error_kind: Some("admin_audit_write_failed"@),
        latency_ms: None,
        input_tokens: None,
        output_tokens: None,
    }
}

/// The log line of a record that could not be written.
pub fn audit_failure_log(request_id: &str, actor_hash: &str) -> (r: LogEntry)
    ensures
        r.deep_view() == audit_failure(request_id@, actor_hash@),
{
    LogEntry {
        request_id: request_id.to_owned(),
        downstream_key_hash: Some(actor_hash.to_owned()),
        downstream_model: None,
        route_id: None,
        target_id: None,
        provider_id: None,
        upstream_model: None,
        wire_api: None,
        status_code: Some(500),
        error_kind: Some("admin_audit_write_failed".to_owned()),
        latency_ms: None,
        input_tokens: None,
        output_tokens: None,
    }
}

/// An administrator is told by the token of their bearer header, and by one word where
/// there is none.
pub proof fn administrator_is_told_by_the_token(token: Seq<char>, value: Seq<char>)
    ensures
        actor_token_of(Some("Bearer "@ + token)) == token,
        bearer_of(value) is None ==> actor_token_of(Some(value)) == "admin"@,
        actor_token_of(None) == "admin"@,
{
    bearer_key_follows_the_word("Bearer "@ + token, token);
}

/// A difference holds what was there before under that name, and what came after under
/// the other.
pub proof fn difference_tells_before_from_after(before: JsonView, after: JsonView)
    ensures
        diff(before, after).get("before"@) == Some(before),
        diff(before, after).get("after"@) == Some(after),
{
    reveal_strlit("before");
    reveal_strlit("after");
    assert("before"@.len() != "after"@.len());
    let members = diff(before, after)->Object_0;
    lemma_member_at(members, 0);
    lemma_member_at(members, 1);
}

/// A record that could not be written is logged under its request and the one who asked.
pub proof fn lost_record_is_logged(request_id: Seq<char>, actor_hash: Seq<char>)
    ensures
        ({
            let line = audit_failure(request_id, actor_hash);
            &&& line.request_id == request_id && line.downstream_key_hash == Some(actor_hash)
            &&& line.status_code == Some(500i32)
            &&& line.error_kind == Some("admin_audit_write_failed"@)
            &&& line.route_id is None && line.target_id is None && line.provider_id is None
        }),
{
}

/// A record tells who did what to which thing, each in its own field.
pub proof fn record_tells_who_did_what(
    record: AdminAuditInsert,
    request_id: Seq<char>,
    actor_hash: Seq<char>,
    action: Seq<char>,
    resource_type: Seq<char>,
    resource_id: Seq<char>,
    diff_json: Seq<char>,
)
    ensures
        tells_of(
            record,
            request_id,
            actor_hash,
            action,
            resource_type,
            resource_id,
            diff_json,
        ) <==> record.request_id@ == request_id && record.actor_key_hash@ == actor_hash
            && record.action@ == action && record.resource_type@ == resource_type
            && record.resource_id@ == resource_id && record.diff_json@ == diff_json,
{
}

} // verus!
