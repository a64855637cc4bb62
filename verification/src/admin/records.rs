//! Stored providers, routes and targets: how they are written, how they are read
//! back, and what an administrator is shown of them.

use crate::config::{ProviderConfig, ProviderView, RouteConfig, RouteView, TargetConfig, TargetView};
use crate::json::{
    add_item, add_member, array_of, ascending, canonical, depth, integer, integer_value,
    is_readable, json_of_text, lemma_canonical_is_orderly, lemma_holds, lemma_less_at,
    lemma_like_without_floats, lemma_max_member_depth, lemma_member_found, like, no_members,
    number_or_null, object_of, opt_number_value, opt_text_value, opt_value, orderly, reads_alike,
    render_json, rendered_json, rereadable, text_less, text_or_null, text_value, value_or_null,
    Json, JsonView,
};
use crate::relay::continuation::{load_content, stored_content};
use crate::relay::request::{flag, flag_field, text_field_or, text_or};
use crate::relay::target::{target_effective_id, target_id_of};
use crate::store::{
    ProviderRecord, ProviderRecordView, RouteRecord, RouteRecordView, TargetRecord,
    TargetRecordView,
};
use crate::text::{copy_opt, occurs_at, to_owned_opt};
use vstd::prelude::*;

verus! {

/// A flag as it is stored.
pub open spec fn flag_number(flag: bool) -> i64 {
    if flag {
        1
    } else {
        0
    }
}

/// A flag as it is stored.
pub fn stored_flag(flag: bool) -> (r: i64)
    ensures
        r == flag_number(flag),
{
    if flag {
        1
    } else {
        0
    }
}

/// The settings of a provider that stand in its stored JSON.
pub open spec fn provider_settings(
    provider: ProviderView,
    managed_api_key: Option<Seq<char>>,
) -> JsonView {
    JsonView::Object(
        seq![
            ("allow_private_ips"@, JsonView::Bool(provider.allow_private_ips)),
            ("api_key_set"@, JsonView::Bool(provider.api_key is Some)),
            ("config_json"@, value_or_null(provider.config_json)),
            ("managed_api_key"@, text_or_null(managed_api_key)),
            ("skip_ssrf_validation"@, JsonView::Bool(provider.skip_ssrf_validation)),
        ],
    )
}

/// A provider as it is stored: its own key not at all, and the sealed one where
/// it has one.
pub open spec fn provider_row(
    provider: ProviderView,
    managed_api_key: Option<Seq<char>>,
) -> ProviderRecordView {
    ProviderRecordView {
        id: provider.id,
        name: provider.name,
        base_url: provider.base_url,
        auth_mode: provider.auth_mode,
        default_wire_api: provider.default_wire_api,
        state_scope: provider.state_scope,
        config_json: rendered_json(provider_settings(provider, managed_api_key)),
    }
}

/// A stored provider as a configuration. The key is never part of it.
pub open spec fn provider_of_record(record: ProviderRecordView) -> ProviderView {
    let settings = stored_content(record.config_json);
    ProviderView {
        id: record.id,
        name: record.name,
        base_url: record.base_url,
        auth_mode: record.auth_mode,
        default_wire_api: record.default_wire_api,
        state_scope: record.state_scope,
        api_key: None,
        allow_private_ips: flag(settings, "allow_private_ips"@),
        skip_ssrf_validation: flag(settings, "skip_ssrf_validation"@),
        config_json: settings.get("config_json"@),
    }
}

/// A stored provider as a configuration.
pub fn provider_record_to_config(provider: &ProviderRecord) -> (r: ProviderConfig)
    ensures
        r.deep_view() == provider_of_record(provider.deep_view()),
{
    let settings = load_content(provider.config_json.as_str());
    let config_json: Option<Json> = match settings.get("config_json") {
        Some(value) => Some(value.duplicate()),
        None => None,
    };
    ProviderConfig {
        id: provider.id.clone(),
        name: provider.name.clone(),
        base_url: provider.base_url.clone(),
        auth_mode: provider.auth_mode.clone(),
        default_wire_api: provider.default_wire_api.clone(),
        state_scope: copy_opt(&provider.state_scope),
        api_key: None,
        allow_private_ips: flag_field(&settings, "allow_private_ips"),
        skip_ssrf_validation: flag_field(&settings, "skip_ssrf_validation"),
        config_json,
    }
}

/// Whether a free part of the settings can be read back as it was written.
pub open spec fn is_plain(json: Option<JsonView>) -> bool {
    json matches Some(json) ==> canonical(json) && depth(json) < 127
}

/// Whether a free part of the settings can be read back, as it was written but for
/// its floats.
pub open spec fn is_sound(json: Option<JsonView>) -> bool {
    json matches Some(json) ==> orderly(json) && depth(json) < 127
}

proof fn lemma_plain_is_sound(json: Option<JsonView>)
    requires
        is_plain(json),
    ensures
        is_sound(json),
{
    if let Some(json) = json {
        lemma_canonical_is_orderly(json);
    }
}

proof fn lemma_provider_settings(provider: ProviderView, managed_api_key: Option<Seq<char>>)
    ensures
        is_sound(provider.config_json) ==> is_readable(
            provider_settings(provider, managed_api_key),
        ),
        is_plain(provider.config_json) ==> rereadable(provider_settings(provider, managed_api_key)),
        ascending(provider_settings(provider, managed_api_key)->Object_0),
{
    reveal_strlit("allow_private_ips");
    reveal_strlit("api_key_set");
    reveal_strlit("config_json");
    reveal_strlit("managed_api_key");
    reveal_strlit("skip_ssrf_validation");
    reveal_strlit("$serde_json::private::");
    let members = provider_settings(provider, managed_api_key)->Object_0;
    lemma_less_at("allow_private_ips"@, "api_key_set"@, 1);
    lemma_less_at("api_key_set"@, "config_json"@, 0);
    lemma_less_at("config_json"@, "managed_api_key"@, 0);
    lemma_less_at("managed_api_key"@, "skip_ssrf_validation"@, 0);
    assert(ascending(members));
    assert("$serde_json::private::"@.len() == 22);
    assert("allow_private_ips"@.len() < 22 && "skip_ssrf_validation"@.len() < 22);
    if is_plain(provider.config_json) {
        lemma_plain_is_sound(provider.config_json);
        assert forall|k: int| 0 <= k < members.len() implies canonical((#[trigger] members[k]).1)
            && !occurs_at(members[k].0, "$serde_json::private::"@, 0) by {}
    }
    if is_sound(provider.config_json) {
        assert forall|k: int| 0 <= k < members.len() implies orderly((#[trigger] members[k]).1)
            && depth(members[k].1) <= 126 && !occurs_at(
            members[k].0,
            "$serde_json::private::"@,
            0,
        ) by {}
        lemma_max_member_depth(members, members.len(), 126);
    }
}

/// The members of what is like an object with ascending names.
proof fn lemma_like_members(settings: JsonView, read: JsonView, k: int)
    requires
        settings is Object && ascending(settings->Object_0),
        like(settings, read),
        0 <= k < settings->Object_0.len(),
    ensures
        read is Object && read->Object_0.len() == settings->Object_0.len(),
        read.get(settings->Object_0[k].0) == Some(read->Object_0[k].1),
        like(settings->Object_0[k].1, read->Object_0[k].1),
{
    let x = settings->Object_0;
    let y = read->Object_0;
    assert(x[k].0 == y[k].0 && like(x[k].1, y[k].1));
    assert forall|i: int| 0 <= i < y.len() - 1 implies text_less(
        (#[trigger] y[i]).0,
        y[i + 1].0,
    ) by {
        assert(x[i].0 == y[i].0 && x[i + 1].0 == y[i + 1].0);
    }
    lemma_member_found(y, k);
}

proof fn lemma_provider_read(
    provider: ProviderView,
    managed_api_key: Option<Seq<char>>,
    read: JsonView,
)
    requires
        like(provider_settings(provider, managed_api_key), read),
    ensures
        flag(read, "allow_private_ips"@) == provider.allow_private_ips,
        flag(read, "skip_ssrf_validation"@) == provider.skip_ssrf_validation,
        flag(read, "api_key_set"@) == (provider.api_key is Some),
        read.get("config_json"@) matches Some(value) && like(
            value_or_null(provider.config_json),
            value,
        ),
        read.get_str("managed_api_key"@) == managed_api_key,
{
    let settings = provider_settings(provider, managed_api_key);
    lemma_provider_settings(provider, managed_api_key);
    lemma_like_members(settings, read, 0);
    lemma_like_members(settings, read, 1);
    lemma_like_members(settings, read, 2);
    lemma_like_members(settings, read, 3);
    lemma_like_members(settings, read, 4);
}

/// What of a provider comes back from the store: all of it but its key. A missing
/// free part comes back as null.
pub open spec fn without_key(provider: ProviderView) -> ProviderView {
    ProviderView {
        api_key: None,
        config_json: Some(value_or_null(provider.config_json)),
        ..provider
    }
}

/// Whether a row reads back as the provider it was made of, but for its key: the
/// sealed key is found, and whether the provider has a key. This is owed where the
/// free part of the settings is sound; floats in that part are read back as
/// numbers, and the rest of it as it was.
pub open spec fn provider_reads_back(
    provider: ProviderView,
    managed_api_key: Option<Seq<char>>,
    row: ProviderRecordView,
) -> bool {
    let back = provider_of_record(row);
    &&& is_sound(provider.config_json) ==> {
        &&& back == (ProviderView { config_json: back.config_json, ..without_key(provider) })
        &&& back.config_json matches Some(value) && like(
            value_or_null(provider.config_json),
            value,
        )
        &&& stored_key(row) == managed_api_key
        &&& flag(stored_content(row.config_json), "api_key_set"@) == (provider.api_key is Some)
    }
    &&& is_plain(provider.config_json) ==> back == without_key(provider)
}

/// A provider as it is stored. Read back, it is the same but for its key.
pub fn provider_record(provider: &ProviderConfig, managed_api_key: &Option<String>) -> (r:
    ProviderRecord)
    ensures
        r.deep_view() == provider_row(provider.deep_view(), managed_api_key.deep_view()),
        provider_reads_back(provider.deep_view(), managed_api_key.deep_view(), r.deep_view()),
{
    let mut members = no_members();
    add_member(&mut members, "allow_private_ips", Json::Bool(provider.allow_private_ips));
    add_member(&mut members, "api_key_set", Json::Bool(provider.api_key.is_some()));
    add_member(&mut members, "config_json", opt_value(&provider.config_json));
    add_member(&mut members, "managed_api_key", opt_text_value(managed_api_key));
    add_member(&mut members, "skip_ssrf_validation", Json::Bool(provider.skip_ssrf_validation));
    let settings = object_of(members);
    assert(settings@->Object_0 =~= provider_settings(
        provider.deep_view(),
        managed_api_key.deep_view(),
    )->Object_0);
    let config_json = render_json(&settings);
    proof {
        let written = provider.deep_view();
        lemma_provider_settings(written, managed_api_key.deep_view());
        if is_plain(written.config_json) {
            lemma_plain_is_sound(written.config_json);
        }
        if is_sound(written.config_json) {
            let read = stored_content(config_json@);
            lemma_provider_read(written, managed_api_key.deep_view(), read);
            if is_plain(written.config_json) {
                lemma_like_without_floats(
                    value_or_null(written.config_json),
                    read.get("config_json"@)->0,
                );
            }
        }
    }
    ProviderRecord {
        id: provider.id.clone(),
        name: provider.name.clone(),
        base_url: provider.base_url.clone(),
        auth_mode: provider.auth_mode.clone(),
        default_wire_api: provider.default_wire_api.clone(),
        state_scope: copy_opt(&provider.state_scope),
        config_json,
    }
}

/// The sealed key of a stored provider.
pub open spec fn stored_key(record: ProviderRecordView) -> Option<Seq<char>> {
    stored_content(record.config_json).get_str("managed_api_key"@)
}

/// The sealed key of a stored provider.
pub fn stored_managed_key(record: &ProviderRecord) -> (r: Option<String>)
    ensures
        r.deep_view() == stored_key(record.deep_view()),
{
    let settings = load_content(record.config_json.as_str());
    to_owned_opt(settings.get_str("managed_api_key"))
}

/// What an administrator is shown of a provider.
pub open spec fn shown_provider(record: ProviderRecordView) -> JsonView {
    JsonView::Object(
        seq![
            (
                "api_key_set"@,
                JsonView::Bool(flag(stored_content(record.config_json), "api_key_set"@)),
            ),
            ("auth_mode"@, JsonView::Text(record.auth_mode)),
            ("base_url"@, JsonView::Text(record.base_url)),
            ("default_wire_api"@, JsonView::Text(record.default_wire_api)),
            ("id"@, JsonView::Text(record.id)),
            ("name"@, JsonView::Text(record.name)),
            ("state_scope"@, text_or_null(record.state_scope)),
        ],
    )
}

/// What an administrator is shown of a provider.
pub fn serialize_provider_record(provider: &ProviderRecord) -> (r: Json)
    ensures
        r@ == shown_provider(provider.deep_view()),
{
    let settings = load_content(provider.config_json.as_str());
    let mut members = no_members();
    add_member(&mut members, "api_key_set", Json::Bool(flag_field(&settings, "api_key_set")));
    add_member(&mut members, "auth_mode", text_value(provider.auth_mode.as_str()));
    add_member(&mut members, "base_url", text_value(provider.base_url.as_str()));
    add_member(
        &mut members,
        "default_wire_api",
        text_value(provider.default_wire_api.as_str()),
    );
    add_member(&mut members, "id", text_value(provider.id.as_str()));
    add_member(&mut members, "name", text_value(provider.name.as_str()));
    add_member(&mut members, "state_scope", opt_text_value(&provider.state_scope));
    assert(members.deep_view() =~= shown_provider(provider.deep_view())->Object_0);
    object_of(members)
}

/// No key is ever shown: what is shown of a provider depends on its stored
/// settings only in whether a key is set.
pub proof fn no_key_is_shown(a: ProviderRecordView, b: ProviderRecordView)
    requires
        a == (ProviderRecordView { config_json: a.config_json, ..b }),
        flag(stored_content(a.config_json), "api_key_set"@) == flag(
            stored_content(b.config_json),
            "api_key_set"@,
        ),
    ensures
        shown_provider(a) == shown_provider(b),
        provider_of_record(a).api_key is None,
{
}

/// The settings of a target that stand in its stored JSON.
pub open spec fn target_settings(target: TargetView) -> JsonView {
    JsonView::Object(
        seq![
            (
                "auto_compact_recommended_tokens"@,
                number_or_null(target.auto_compact_recommended_tokens),
            ),
            ("config_json"@, value_or_null(target.config_json)),
            ("context_overflow_policy"@, JsonView::Text(target.context_overflow_policy)),
            (
                "context_safety_margin_tokens"@,
                number_or_null(target.context_safety_margin_tokens),
            ),
            ("context_window_tokens"@, number_or_null(target.context_window_tokens)),
            ("max_output_tokens"@, number_or_null(target.max_output_tokens)),
            ("token_estimator"@, text_or_null(target.token_estimator)),
        ],
    )
}

/// A target of a route as it is stored.
pub open spec fn target_row(route_id: Seq<char>, target: TargetView) -> TargetRecordView {
    TargetRecordView {
        id: target_id_of(route_id, target.provider, target.priority),
        route_id,
        provider_id: target.provider,
        upstream_model: target.upstream_model,
        wire_api: target.wire_api,
        priority: target.priority,
        enabled: flag_number(target.enabled),
        config_json: rendered_json(target_settings(target)),
    }
}

/// A stored target as a configuration.
pub open spec fn target_of_record(record: TargetRecordView) -> TargetView {
    let settings = stored_content(record.config_json);
    TargetView {
        provider: record.provider_id,
        upstream_model: record.upstream_model,
        wire_api: record.wire_api,
        priority: record.priority,
        enabled: record.enabled != 0,
        context_window_tokens: settings.get_u64("context_window_tokens"@),
        max_output_tokens: settings.get_u64("max_output_tokens"@),
        auto_compact_recommended_tokens: settings.get_u64("auto_compact_recommended_tokens"@),
        context_safety_margin_tokens: settings.get_u64("context_safety_margin_tokens"@),
        token_estimator: settings.get_str("token_estimator"@),
        context_overflow_policy: text_or(settings, "context_overflow_policy"@, "reject"@),
        config_json: settings.get("config_json"@),
    }
}

/// A stored target as a configuration.
pub fn target_record_to_config(target: &TargetRecord) -> (r: TargetConfig)
    ensures
        r.deep_view() == target_of_record(target.deep_view()),
{
    let settings = load_content(target.config_json.as_str());
    let config_json: Option<Json> = match settings.get("config_json") {
        Some(value) => Some(value.duplicate()),
        None => None,
    };
    TargetConfig {
        provider: target.provider_id.clone(),
        upstream_model: target.upstream_model.clone(),
        wire_api: target.wire_api.clone(),
        priority: target.priority,
        enabled: target.enabled != 0,
        context_window_tokens: settings.get_u64("context_window_tokens"),
        max_output_tokens: settings.get_u64("max_output_tokens"),
        auto_compact_recommended_tokens: settings.get_u64("auto_compact_recommended_tokens"),
        context_safety_margin_tokens: settings.get_u64("context_safety_margin_tokens"),
        token_estimator: to_owned_opt(settings.get_str("token_estimator")),
        context_overflow_policy: text_field_or(
            &settings,
            "context_overflow_policy",
            "reject",
        ).to_owned(),
        config_json,
    }
}

proof fn lemma_target_settings(target: TargetView)
    ensures
        is_sound(target.config_json) ==> is_readable(target_settings(target)),
        is_plain(target.config_json) ==> rereadable(target_settings(target)),
        ascending(target_settings(target)->Object_0),
{
    reveal_strlit("auto_compact_recommended_tokens");
    reveal_strlit("config_json");
    reveal_strlit("context_overflow_policy");
    reveal_strlit("context_safety_margin_tokens");
    reveal_strlit("context_window_tokens");
    reveal_strlit("max_output_tokens");
    reveal_strlit("token_estimator");
    reveal_strlit("$serde_json::private::");
    let members = target_settings(target)->Object_0;
    lemma_less_at("auto_compact_recommended_tokens"@, "config_json"@, 0);
    lemma_less_at("config_json"@, "context_overflow_policy"@, 3);
    lemma_less_at("context_overflow_policy"@, "context_safety_margin_tokens"@, 8);
    lemma_less_at("context_safety_margin_tokens"@, "context_window_tokens"@, 8);
    lemma_less_at("context_window_tokens"@, "max_output_tokens"@, 0);
    lemma_less_at("max_output_tokens"@, "token_estimator"@, 0);
    assert(ascending(members));
    let private = "$serde_json::private::"@;
    assert(private.len() == 22 && private[0] == '$');
    assert forall|k: int| 0 <= k < members.len() implies !occurs_at(
        (#[trigger] members[k]).0,
        private,
        0,
    ) by {
        if occurs_at(members[k].0, private, 0) {
            assert(members[k].0.subrange(0, 22)[0] == private[0]);
            assert(members[k].0[0] == '$');
        }
    }
    if is_plain(target.config_json) {
        lemma_plain_is_sound(target.config_json);
        assert forall|k: int| 0 <= k < members.len() implies canonical((#[trigger] members[k]).1)
            && !occurs_at(members[k].0, private, 0) by {}
    }
    if is_sound(target.config_json) {
        assert forall|k: int| 0 <= k < members.len() implies orderly((#[trigger] members[k]).1)
            && depth(members[k].1) <= 126 && !occurs_at(members[k].0, private, 0) by {}
        lemma_max_member_depth(members, members.len(), 126);
    }
}

proof fn lemma_target_read(target: TargetView, read: JsonView)
    requires
        like(target_settings(target), read),
    ensures
        read.get_u64("auto_compact_recommended_tokens"@) == target.auto_compact_recommended_tokens,
        read.get("config_json"@) matches Some(value) && like(
            value_or_null(target.config_json),
            value,
        ),
        text_or(read, "context_overflow_policy"@, "reject"@) == target.context_overflow_policy,
        read.get_u64("context_safety_margin_tokens"@) == target.context_safety_margin_tokens,
        read.get_u64("context_window_tokens"@) == target.context_window_tokens,
        read.get_u64("max_output_tokens"@) == target.max_output_tokens,
        read.get_str("token_estimator"@) == target.token_estimator,
{
    let settings = target_settings(target);
    lemma_target_settings(target);
    lemma_like_members(settings, read, 0);
    lemma_like_members(settings, read, 1);
    lemma_like_members(settings, read, 2);
    lemma_like_members(settings, read, 3);
    lemma_like_members(settings, read, 4);
    lemma_like_members(settings, read, 5);
    lemma_like_members(settings, read, 6);
}

/// The settings of a target as they are stored.
pub fn target_config_json(target: &TargetConfig) -> (r: String)
    ensures
        r@ == rendered_json(target_settings(target.deep_view())),
        is_sound(target.deep_view().config_json) ==> reads_alike(
            r@,
            target_settings(target.deep_view()),
        ),
        is_plain(target.deep_view().config_json) ==> json_of_text(r@) == Some(
            target_settings(target.deep_view()),
        ),
{
    let mut members = no_members();
    add_member(
        &mut members,
        "auto_compact_recommended_tokens",
        opt_number_value(target.auto_compact_recommended_tokens),
    );
    add_member(&mut members, "config_json", opt_value(&target.config_json));
    add_member(
        &mut members,
        "context_overflow_policy",
        text_value(target.context_overflow_policy.as_str()),
    );
    add_member(
        &mut members,
        "context_safety_margin_tokens",
        opt_number_value(target.context_safety_margin_tokens),
    );
    add_member(
        &mut members,
        "context_window_tokens",
        opt_number_value(target.context_window_tokens),
    );
    add_member(&mut members, "max_output_tokens", opt_number_value(target.max_output_tokens));
    add_member(&mut members, "token_estimator", opt_text_value(&target.token_estimator));
    let settings = object_of(members);
    assert(settings@->Object_0 =~= target_settings(target.deep_view())->Object_0);
    proof {
        lemma_target_settings(target.deep_view());
    }
    render_json(&settings)
}

/// What of a target comes back from the store: all of it. A missing free part
/// comes back as null.
pub open spec fn as_stored(target: TargetView) -> TargetView {
    TargetView { config_json: Some(value_or_null(target.config_json)), ..target }
}

/// Whether a row reads back as the target it was made of. This is owed where the
/// free part of the settings is sound; floats in that part are read back as
/// numbers, and the rest of it as it was.
pub open spec fn target_reads_back(target: TargetView, row: TargetRecordView) -> bool {
    let back = target_of_record(row);
    &&& is_sound(target.config_json) ==> {
        &&& back == (TargetView { config_json: back.config_json, ..target })
        &&& back.config_json matches Some(value) && like(
            value_or_null(target.config_json),
            value,
        )
    }
    &&& is_plain(target.config_json) ==> back == as_stored(target)
}

/// A target of a route as it is stored. Read back, it is the same target.
pub fn target_record(route_id: &str, target: &TargetConfig) -> (r: TargetRecord)
    ensures
        r.deep_view() == target_row(route_id@, target.deep_view()),
        target_reads_back(target.deep_view(), r.deep_view()),
{
    let config_json = target_config_json(target);
    proof {
        let written = target.deep_view();
        if is_plain(written.config_json) {
            lemma_plain_is_sound(written.config_json);
        }
        if is_sound(written.config_json) {
            let read = stored_content(config_json@);
            lemma_target_read(written, read);
            if is_plain(written.config_json) {
                lemma_like_without_floats(
                    value_or_null(written.config_json),
                    read.get("config_json"@)->0,
                );
            }
        }
    }
    TargetRecord {
        id: target_effective_id(route_id, target),
        route_id: route_id.to_owned(),
        provider_id: target.provider.clone(),
        upstream_model: target.upstream_model.clone(),
        wire_api: target.wire_api.clone(),
        priority: target.priority,
        enabled: stored_flag(target.enabled),
        config_json,
    }
}

/// What an administrator is shown of a target.
pub open spec fn shown_target(route_id: Seq<char>, target: TargetView) -> JsonView {
    JsonView::Object(
        seq![
            (
                "auto_compact_recommended_tokens"@,
                number_or_null(target.auto_compact_recommended_tokens),
            ),
            ("config_json"@, value_or_null(target.config_json)),
            ("context_overflow_policy"@, JsonView::Text(target.context_overflow_policy)),
            (
                "context_safety_margin_tokens"@,
                number_or_null(target.context_safety_margin_tokens),
            ),
            ("context_window_tokens"@, number_or_null(target.context_window_tokens)),
            ("enabled"@, JsonView::Bool(target.enabled)),
            ("id"@, JsonView::Text(target_id_of(route_id, target.provider, target.priority))),
            ("max_output_tokens"@, number_or_null(target.max_output_tokens)),
            ("priority"@, integer(target.priority as i64)),
            ("provider"@, JsonView::Text(target.provider)),
            ("provider_id"@, JsonView::Text(target.provider)),
            ("route_id"@, JsonView::Text(route_id)),
            ("token_estimator"@, text_or_null(target.token_estimator)),
            ("upstream_model"@, JsonView::Text(target.upstream_model)),
            ("wire_api"@, JsonView::Text(target.wire_api)),
        ],
    )
}

/// What an administrator is shown of a target.
pub fn serialize_target_with_id(route_id: &str, target: &TargetConfig) -> (r: Json)
    ensures
        r@ == shown_target(route_id@, target.deep_view()),
{
    let id = target_effective_id(route_id, target);
    let mut members = no_members();
    add_member(
        &mut members,
        "auto_compact_recommended_tokens",
        opt_number_value(target.auto_compact_recommended_tokens),
    );
    add_member(&mut members, "config_json", opt_value(&target.config_json));
    add_member(
        &mut members,
        "context_overflow_policy",
        text_value(target.context_overflow_policy.as_str()),
    );
    add_member(
        &mut members,
        "context_safety_margin_tokens",
        opt_number_value(target.context_safety_margin_tokens),
    );
    add_member(
        &mut members,
        "context_window_tokens",
        opt_number_value(target.context_window_tokens),
    );
    add_member(&mut members, "enabled", Json::Bool(target.enabled));
    add_member(&mut members, "id", text_value(id.as_str()));
    add_member(&mut members, "max_output_tokens", opt_number_value(target.max_output_tokens));
    add_member(&mut members, "priority", integer_value(target.priority as i64));
    add_member(&mut members, "provider", text_value(target.provider.as_str()));
    add_member(&mut members, "provider_id", text_value(target.provider.as_str()));
    add_member(&mut members, "route_id", text_value(route_id));
    add_member(&mut members, "token_estimator", opt_text_value(&target.token_estimator));
    add_member(&mut members, "upstream_model", text_value(target.upstream_model.as_str()));
    add_member(&mut members, "wire_api", text_value(target.wire_api.as_str()));
    assert(members.deep_view() =~= shown_target(route_id@, target.deep_view())->Object_0);
    object_of(members)
}

/// What an administrator is shown of a stored target.
pub fn serialize_target_record(target: &TargetRecord) -> (r: Json)
    ensures
        r@ == shown_target(target.route_id@, target_of_record(target.deep_view())),
{
    let config = target_record_to_config(target);
    serialize_target_with_id(target.route_id.as_str(), &config)
}

/// What an administrator is shown of stored targets.
pub open spec fn shown_targets(targets: Seq<TargetRecordView>) -> Seq<JsonView> {
    targets.map_values(
        |target: TargetRecordView| shown_target(target.route_id, target_of_record(target)),
    )
}

/// What an administrator is shown of a route.
pub open spec fn shown_route(
    route: RouteRecordView,
    targets: Seq<TargetRecordView>,
) -> JsonView {
    JsonView::Object(
        seq![
            ("description"@, text_or_null(route.description)),
            ("downstream_model"@, JsonView::Text(route.downstream_model)),
            ("enabled"@, JsonView::Bool(route.enabled != 0)),
            ("id"@, JsonView::Text(route.id)),
            ("targets"@, JsonView::Array(shown_targets(targets))),
        ],
    )
}

/// What an administrator is shown of a route.
pub fn serialize_route_record(route: &RouteRecord, targets: &Vec<TargetRecord>) -> (r: Json)
    ensures
        r@ == shown_route(route.deep_view(), targets.deep_view()),
{
    let ghost wanted = shown_targets(targets.deep_view());
    let mut items: Vec<Json> = Vec::new();
    let mut i: usize = 0;
    assert(items.deep_view() =~= wanted.take(0));
    while i < targets.len()
        invariant
            i <= targets.len(),
            wanted == shown_targets(targets.deep_view()),
            items.deep_view() == wanted.take(i as int),
        decreases targets.len() - i,
    {
        add_item(&mut items, serialize_target_record(&targets[i]));
        assert(items.deep_view() =~= wanted.take(i + 1));
        i = i + 1;
    }
    assert(wanted.take(wanted.len() as int) =~= wanted);
    let mut members = no_members();
    add_member(&mut members, "description", opt_text_value(&route.description));
    add_member(&mut members, "downstream_model", text_value(route.downstream_model.as_str()));
    add_member(&mut members, "enabled", Json::Bool(route.enabled != 0));
    add_member(&mut members, "id", text_value(route.id.as_str()));
    add_member(&mut members, "targets", array_of(items));
    assert(members.deep_view() =~= shown_route(
        route.deep_view(),
        targets.deep_view(),
    )->Object_0);
    object_of(members)
}

/// What an administrator is shown of a route in the list of routes.
pub open spec fn listed_route(route: RouteRecordView, target_count: u64) -> JsonView {
    JsonView::Object(
        seq![
            ("description"@, text_or_null(route.description)),
            ("downstream_model"@, JsonView::Text(route.downstream_model)),
            ("enabled"@, JsonView::Bool(route.enabled != 0)),
            ("id"@, JsonView::Text(route.id)),
            ("target_count"@, JsonView::Uint(target_count)),
        ],
    )
}

/// What an administrator is shown of a route in the list of routes.
pub fn serialize_listed_route(route: &RouteRecord, target_count: usize) -> (r: Json)
    ensures
        r@ == listed_route(route.deep_view(), target_count as u64),
{
    let mut members = no_members();
    add_member(&mut members, "description", opt_text_value(&route.description));
    add_member(&mut members, "downstream_model", text_value(route.downstream_model.as_str()));
    add_member(&mut members, "enabled", Json::Bool(route.enabled != 0));
    add_member(&mut members, "id", text_value(route.id.as_str()));
    add_member(&mut members, "target_count", Json::Uint(target_count as u64));
    assert(members.deep_view() =~= listed_route(
        route.deep_view(),
        target_count as u64,
    )->Object_0);
    object_of(members)
}

/// A stored route with its targets as a configuration.
pub open spec fn route_of_record(
    route: RouteRecordView,
    targets: Seq<TargetRecordView>,
) -> RouteView {
    RouteView {
        id: Some(route.id),
        downstream_model: route.downstream_model,
        description: route.description,
        enabled: route.enabled != 0,
        targets: targets.map_values(|target: TargetRecordView| target_of_record(target)),
    }
}

/// A stored route with its targets as a configuration.
pub fn route_record_to_config(route: &RouteRecord, targets: &Vec<TargetRecord>) -> (r:
    RouteConfig)
    ensures
        r.deep_view() == route_of_record(route.deep_view(), targets.deep_view()),
{
    let ghost wanted = targets.deep_view().map_values(
        |target: TargetRecordView| target_of_record(target),
    );
    let mut configs: Vec<TargetConfig> = Vec::new();
    let mut i: usize = 0;
    assert(configs.deep_view() =~= wanted.take(0));
    while i < targets.len()
        invariant
            i <= targets.len(),
            wanted == targets.deep_view().map_values(
                |target: TargetRecordView| target_of_record(target),
            ),
            configs.deep_view() == wanted.take(i as int),
        decreases targets.len() - i,
    {
        let ghost before = configs.deep_view();
        let config = target_record_to_config(&targets[i]);
        let ghost shown = config.deep_view();
        configs.push(config);
        assert(configs.deep_view() =~= before.push(shown));
        assert(wanted.take(i + 1) =~= before.push(shown));
        i = i + 1;
    }
    assert(wanted.take(wanted.len() as int) =~= wanted);
    RouteConfig {
        id: Some(route.id.clone()),
        downstream_model: route.downstream_model.clone(),
        description: copy_opt(&route.description),
        enabled: route.enabled != 0,
        targets: configs,
    }
}

/// A provider is stored field by field under its own names. Its settings stand in its
/// JSON, each under its own name, with the sealed key and whether there is a key, but
/// never the key itself.
pub proof fn provider_is_stored_field_by_field(
    provider: ProviderView,
    managed_api_key: Option<Seq<char>>,
)
    ensures
        ({
            let row = provider_row(provider, managed_api_key);
            let settings = provider_settings(provider, managed_api_key);
            &&& row.id == provider.id && row.name == provider.name
            &&& row.base_url == provider.base_url && row.auth_mode == provider.auth_mode
            &&& row.default_wire_api == provider.default_wire_api
            &&& row.state_scope == provider.state_scope
            &&& row.config_json == rendered_json(settings)
            &&& settings->Object_0.len() == 5
            &&& settings.holds("allow_private_ips"@, JsonView::Bool(provider.allow_private_ips))
            &&& settings.holds(
                "skip_ssrf_validation"@,
                JsonView::Bool(provider.skip_ssrf_validation),
            )
            &&& settings.holds("api_key_set"@, JsonView::Bool(provider.api_key is Some))
            &&& settings.holds("managed_api_key"@, text_or_null(managed_api_key))
            &&& settings.holds("config_json"@, value_or_null(provider.config_json))
        }),
{
    let settings = provider_settings(provider, managed_api_key);
    lemma_holds(settings, 0);
    lemma_holds(settings, 1);
    lemma_holds(settings, 2);
    lemma_holds(settings, 3);
    lemma_holds(settings, 4);
}

/// A stored provider is read field by field: what stands in its row from the row, and
/// its settings from its JSON, each under its own name. A switch that is not there is
/// off.
pub proof fn provider_is_read_field_by_field(record: ProviderRecordView)
    ensures
        ({
            let provider = provider_of_record(record);
            let settings = stored_content(record.config_json);
            &&& provider.id == record.id && provider.name == record.name
            &&& provider.base_url == record.base_url && provider.auth_mode == record.auth_mode
            &&& provider.default_wire_api == record.default_wire_api
            &&& provider.state_scope == record.state_scope
            &&& provider.api_key is None
            &&& provider.allow_private_ips <==> settings.get("allow_private_ips"@) == Some(
                JsonView::Bool(true),
            )
            &&& provider.skip_ssrf_validation <==> settings.get("skip_ssrf_validation"@) == Some(
                JsonView::Bool(true),
            )
            &&& provider.config_json == settings.get("config_json"@)
            &&& stored_key(record) == settings.get_str("managed_api_key"@)
        }),
{
}

/// An administrator is shown each field of a provider under its own name, and of its
/// key only whether there is one.
pub proof fn provider_is_shown_field_by_field(record: ProviderRecordView)
    ensures
        ({
            let shown = shown_provider(record);
            &&& shown->Object_0.len() == 7
            &&& shown.holds("id"@, JsonView::Text(record.id))
            &&& shown.holds("name"@, JsonView::Text(record.name))
            &&& shown.holds("base_url"@, JsonView::Text(record.base_url))
            &&& shown.holds("auth_mode"@, JsonView::Text(record.auth_mode))
            &&& shown.holds("default_wire_api"@, JsonView::Text(record.default_wire_api))
            &&& shown.holds("state_scope"@, text_or_null(record.state_scope))
            &&& shown.holds(
                "api_key_set"@,
                JsonView::Bool(
                    stored_content(record.config_json).get("api_key_set"@) == Some(
                        JsonView::Bool(true),
                    ),
                ),
            )
        }),
{
    let shown = shown_provider(record);
    lemma_holds(shown, 0);
    lemma_holds(shown, 1);
    lemma_holds(shown, 2);
    lemma_holds(shown, 3);
    lemma_holds(shown, 4);
    lemma_holds(shown, 5);
    lemma_holds(shown, 6);
}

/// A target is stored field by field, under the id that is made of its route, its
/// provider and its priority, with its limits and its policy in its JSON.
pub proof fn target_is_stored_field_by_field(route_id: Seq<char>, target: TargetView)
    ensures
        ({
            let row = target_row(route_id, target);
            let settings = target_settings(target);
            &&& row.id == target_id_of(route_id, target.provider, target.priority)
            &&& row.route_id == route_id && row.provider_id == target.provider
            &&& row.upstream_model == target.upstream_model && row.wire_api == target.wire_api
            &&& row.priority == target.priority
            &&& row.enabled != 0 <==> target.enabled
            &&& row.enabled == 0 || row.enabled == 1
            &&& row.config_json == rendered_json(settings)
            &&& settings->Object_0.len() == 7
            &&& settings.holds(
                "context_window_tokens"@,
                number_or_null(target.context_window_tokens),
            )
            &&& settings.holds("max_output_tokens"@, number_or_null(target.max_output_tokens))
            &&& settings.holds(
                "auto_compact_recommended_tokens"@,
                number_or_null(target.auto_compact_recommended_tokens),
            )
            &&& settings.holds(
                "context_safety_margin_tokens"@,
                number_or_null(target.context_safety_margin_tokens),
            )
            &&& settings.holds("token_estimator"@, text_or_null(target.token_estimator))
            &&& settings.holds(
                "context_overflow_policy"@,
                JsonView::Text(target.context_overflow_policy),
            )
            &&& settings.holds("config_json"@, value_or_null(target.config_json))
        }),
{
    let settings = target_settings(target);
    lemma_holds(settings, 0);
    lemma_holds(settings, 1);
    lemma_holds(settings, 2);
    lemma_holds(settings, 3);
    lemma_holds(settings, 4);
    lemma_holds(settings, 5);
    lemma_holds(settings, 6);
}

/// A stored target is read field by field, and its limits and its policy from its JSON,
/// each under its own name; without a policy it refuses what does not fit.
pub proof fn target_is_read_field_by_field(record: TargetRecordView)
    ensures
        ({
            let target = target_of_record(record);
            let settings = stored_content(record.config_json);
            &&& target.provider == record.provider_id
            &&& target.upstream_model == record.upstream_model
            &&& target.wire_api == record.wire_api && target.priority == record.priority
            &&& target.enabled <==> record.enabled != 0
            &&& target.context_window_tokens == settings.get_u64("context_window_tokens"@)
            &&& target.max_output_tokens == settings.get_u64("max_output_tokens"@)
            &&& target.auto_compact_recommended_tokens == settings.get_u64(
                "auto_compact_recommended_tokens"@,
            )
            &&& target.context_safety_margin_tokens == settings.get_u64(
                "context_safety_margin_tokens"@,
            )
            &&& target.token_estimator == settings.get_str("token_estimator"@)
            &&& target.config_json == settings.get("config_json"@)
            &&& settings.get_str("context_overflow_policy"@) matches Some(policy)
                ==> target.context_overflow_policy == policy
            &&& settings.get_str("context_overflow_policy"@) is None
                ==> target.context_overflow_policy == "reject"@
        }),
{
}

/// An administrator is shown each field of a target under its own name.
pub proof fn target_is_shown_field_by_field(route_id: Seq<char>, target: TargetView)
    ensures
        ({
            let shown = shown_target(route_id, target);
            &&& shown->Object_0.len() == 15
            &&& shown.holds(
                "id"@,
                JsonView::Text(target_id_of(route_id, target.provider, target.priority)),
            )
            &&& shown.holds("route_id"@, JsonView::Text(route_id))
            &&& shown.holds("provider"@, JsonView::Text(target.provider))
            &&& shown.holds("provider_id"@, JsonView::Text(target.provider))
            &&& shown.holds("upstream_model"@, JsonView::Text(target.upstream_model))
            &&& shown.holds("wire_api"@, JsonView::Text(target.wire_api))
            &&& shown.holds("priority"@, integer(target.priority as i64))
            &&& shown.holds("enabled"@, JsonView::Bool(target.enabled))
            &&& shown.holds("context_window_tokens"@, number_or_null(target.context_window_tokens))
            &&& shown.holds("max_output_tokens"@, number_or_null(target.max_output_tokens))
            &&& shown.holds(
                "auto_compact_recommended_tokens"@,
                number_or_null(target.auto_compact_recommended_tokens),
            )
            &&& shown.holds(
                "context_safety_margin_tokens"@,
                number_or_null(target.context_safety_margin_tokens),
            )
            &&& shown.holds("token_estimator"@, text_or_null(target.token_estimator))
            &&& shown.holds(
                "context_overflow_policy"@,
                JsonView::Text(target.context_overflow_policy),
            )
            &&& shown.holds("config_json"@, value_or_null(target.config_json))
        }),
{
    let shown = shown_target(route_id, target);
    lemma_holds(shown, 0);
    lemma_holds(shown, 1);
    lemma_holds(shown, 2);
    lemma_holds(shown, 3);
    lemma_holds(shown, 4);
    lemma_holds(shown, 5);
    lemma_holds(shown, 6);
    lemma_holds(shown, 7);
    lemma_holds(shown, 8);
    lemma_holds(shown, 9);
    lemma_holds(shown, 10);
    lemma_holds(shown, 11);
    lemma_holds(shown, 12);
    lemma_holds(shown, 13);
    lemma_holds(shown, 14);
}

/// A route is shown with its own fields and each of its targets, in order; in the list
/// of routes it is shown with the number of its targets.
pub proof fn route_is_shown_with_its_targets(
    route: RouteRecordView,
    targets: Seq<TargetRecordView>,
    target_count: u64,
)
    ensures
        ({
            let shown = shown_route(route, targets);
            let listed = listed_route(route, target_count);
            let each = shown_targets(targets);
            &&& shown->Object_0.len() == 5 && listed->Object_0.len() == 5
            &&& shown.holds("id"@, JsonView::Text(route.id))
            &&& shown.holds("downstream_model"@, JsonView::Text(route.downstream_model))
            &&& shown.holds("description"@, text_or_null(route.description))
            &&& shown.holds("enabled"@, JsonView::Bool(route.enabled != 0))
            &&& shown.holds("targets"@, JsonView::Array(each))
            &&& each.len() == targets.len()
            &&& forall|i: int|
                0 <= i < targets.len() ==> #[trigger] each[i] == shown_target(
                    targets[i].route_id,
                    target_of_record(targets[i]),
                )
            &&& listed.holds("id"@, JsonView::Text(route.id))
            &&& listed.holds("downstream_model"@, JsonView::Text(route.downstream_model))
            &&& listed.holds("description"@, text_or_null(route.description))
            &&& listed.holds("enabled"@, JsonView::Bool(route.enabled != 0))
            &&& listed.holds("target_count"@, JsonView::Uint(target_count))
        }),
{
    let shown = shown_route(route, targets);
    lemma_holds(shown, 0);
    lemma_holds(shown, 1);
    lemma_holds(shown, 2);
    lemma_holds(shown, 3);
    lemma_holds(shown, 4);
    let listed = listed_route(route, target_count);
    lemma_holds(listed, 0);
    lemma_holds(listed, 1);
    lemma_holds(listed, 2);
    lemma_holds(listed, 3);
    lemma_holds(listed, 4);
}

/// A stored route is read with its own fields and each of its targets, in order.
pub proof fn route_is_read_with_its_targets(
    route: RouteRecordView,
    targets: Seq<TargetRecordView>,
)
    ensures
        ({
            let read = route_of_record(route, targets);
            &&& read.id == Some(route.id) && read.downstream_model == route.downstream_model
            &&& read.description == route.description
            &&& read.enabled <==> route.enabled != 0
            &&& read.targets.len() == targets.len()
            &&& forall|i: int|
                0 <= i < targets.len() ==> #[trigger] read.targets[i] == target_of_record(
                    targets[i],
                )
        }),
{
}

/// A stored provider comes back as it was, but for its key, of which it is known whether
/// there is one; the sealed key is found.
pub proof fn stored_provider_comes_back(
    provider: ProviderView,
    managed_api_key: Option<Seq<char>>,
    row: ProviderRecordView,
)
    requires
        provider_reads_back(provider, managed_api_key, row),
        is_plain(provider.config_json),
    ensures
        ({
            let back = provider_of_record(row);
            &&& back.id == provider.id && back.name == provider.name
            &&& back.base_url == provider.base_url && back.auth_mode == provider.auth_mode
            &&& back.default_wire_api == provider.default_wire_api
            &&& back.state_scope == provider.state_scope
            &&& back.allow_private_ips == provider.allow_private_ips
            &&& back.skip_ssrf_validation == provider.skip_ssrf_validation
            &&& provider.config_json is Some ==> back.config_json == provider.config_json
            &&& back.api_key is None
            &&& stored_key(row) == managed_api_key
            &&& stored_content(row.config_json).get("api_key_set"@) == Some(JsonView::Bool(true))
                <==> provider.api_key is Some
        }),
{
    lemma_plain_is_sound(provider.config_json);
}

/// A stored target comes back as it was.
pub proof fn stored_target_comes_back(target: TargetView, row: TargetRecordView)
    requires
        target_reads_back(target, row),
        is_plain(target.config_json),
    ensures
        ({
            let back = target_of_record(row);
            &&& back == (TargetView { config_json: back.config_json, ..target })
            &&& target.config_json is Some ==> back.config_json == target.config_json
            &&& target.config_json is None ==> back.config_json == Some(JsonView::Null)
        }),
{
}

} // verus!
