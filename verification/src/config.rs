//! Configuration: providers, routes with their targets, relay keys and the
//! security settings that the relay's decisions read.

use crate::json::{Json, JsonView};
use crate::text::copy_opt;
use vstd::prelude::*;

verus! {

/// An upstream provider.
#[derive(Debug)]
pub struct ProviderConfig {
    pub id: String,
    pub name: String,
    pub base_url: String,
    pub auth_mode: String,
    pub default_wire_api: String,
    pub state_scope: Option<String>,
    pub api_key: Option<String>,
    pub allow_private_ips: bool,
    pub skip_ssrf_validation: bool,
    pub config_json: Option<Json>,
}

/// The mathematical value of a [`ProviderConfig`].
#[verifier::ext_equal]
pub struct ProviderView {
    pub id: Seq<char>,
    pub name: Seq<char>,
    pub base_url: Seq<char>,
    pub auth_mode: Seq<char>,
    pub default_wire_api: Seq<char>,
    pub state_scope: Option<Seq<char>>,
    pub api_key: Option<Seq<char>>,
    pub allow_private_ips: bool,
    pub skip_ssrf_validation: bool,
    pub config_json: Option<JsonView>,
}

impl DeepView for ProviderConfig {
    type V = ProviderView;

    open spec fn deep_view(&self) -> ProviderView {
        ProviderView {
            id: self.id@,
            name: self.name@,
            base_url: self.base_url@,
            auth_mode: self.auth_mode@,
            default_wire_api: self.default_wire_api@,
            state_scope: self.state_scope.deep_view(),
            api_key: self.api_key.deep_view(),
            allow_private_ips: self.allow_private_ips,
            skip_ssrf_validation: self.skip_ssrf_validation,
            config_json: self.config_json.deep_view(),
        }
    }
}

/// One upstream target of a route.
#[derive(Debug)]
pub struct TargetConfig {
    pub provider: String,
    pub upstream_model: String,
    pub wire_api: String,
    pub priority: i32,
    pub enabled: bool,
    pub context_window_tokens: Option<u64>,
    pub max_output_tokens: Option<u64>,
    pub auto_compact_recommended_tokens: Option<u64>,
    pub context_safety_margin_tokens: Option<u64>,
    pub token_estimator: Option<String>,
    pub context_overflow_policy: String,
    pub config_json: Option<Json>,
}

/// The mathematical value of a [`TargetConfig`].
#[verifier::ext_equal]
pub struct TargetView {
    pub provider: Seq<char>,
    pub upstream_model: Seq<char>,
    pub wire_api: Seq<char>,
    pub priority: i32,
    pub enabled: bool,
    pub context_window_tokens: Option<u64>,
    pub max_output_tokens: Option<u64>,
    pub auto_compact_recommended_tokens: Option<u64>,
    pub context_safety_margin_tokens: Option<u64>,
    pub token_estimator: Option<Seq<char>>,
    pub context_overflow_policy: Seq<char>,
    pub config_json: Option<JsonView>,
}

impl DeepView for TargetConfig {
    type V = TargetView;

    open spec fn deep_view(&self) -> TargetView {
        TargetView {
            provider: self.provider@,
            upstream_model: self.upstream_model@,
            wire_api: self.wire_api@,
            priority: self.priority,
            enabled: self.enabled,
            context_window_tokens: self.context_window_tokens,
            max_output_tokens: self.max_output_tokens,
            auto_compact_recommended_tokens: self.auto_compact_recommended_tokens,
            context_safety_margin_tokens: self.context_safety_margin_tokens,
            token_estimator: self.token_estimator.deep_view(),
            context_overflow_policy: self.context_overflow_policy@,
            config_json: self.config_json.deep_view(),
        }
    }
}

/// A route: a downstream model and the targets that may serve it.
#[derive(Debug)]
pub struct RouteConfig {
    pub id: Option<String>,
    pub downstream_model: String,
    pub description: Option<String>,
    pub enabled: bool,
    pub targets: Vec<TargetConfig>,
}

/// The mathematical value of a [`RouteConfig`].
#[verifier::ext_equal]
pub struct RouteView {
    pub id: Option<Seq<char>>,
    pub downstream_model: Seq<char>,
    pub description: Option<Seq<char>>,
    pub enabled: bool,
    pub targets: Seq<TargetView>,
}

impl DeepView for RouteConfig {
    type V = RouteView;

    open spec fn deep_view(&self) -> RouteView {
        RouteView {
            id: self.id.deep_view(),
            downstream_model: self.downstream_model@,
            description: self.description.deep_view(),
            enabled: self.enabled,
            targets: self.targets.deep_view(),
        }
    }
}

/// The id under which a route is stored: its own, or else its model's name.
pub open spec fn effective_route_id(route: RouteView) -> Seq<char> {
    match route.id {
        Some(id) => id,
        None => route.downstream_model,
    }
}

/// The id under which a route is stored: its own, or else its model's name.
pub fn route_effective_id(route: &RouteConfig) -> (r: String)
    ensures
        r@ == effective_route_id(route.deep_view()),
{
    match &route.id {
        Some(id) => id.clone(),
        None => route.downstream_model.clone(),
    }
}

/// A relay key that downstream clients may present, with its limits.
#[derive(Debug)]
pub struct RelayKeyConfig {
    pub key_hash: String,
    pub enabled: bool,
    pub allowed_models: Vec<String>,
    pub allowed_providers: Vec<String>,
    pub requests_per_minute: Option<u32>,
    pub max_concurrency: Option<u32>,
    pub archive_capture_mode: Option<String>,
}

/// The security settings.
#[derive(Debug)]
pub struct SecurityConfig {
    pub downstream_auth: String,
    pub relay_keys: Vec<RelayKeyConfig>,
    pub log_secret: Option<String>,
    pub managed_key_encryption_secret: Option<String>,
    pub public_deployment: bool,
    pub allow_passthrough_keys: bool,
    pub trusted_passthrough_header: Option<String>,
    pub trusted_passthrough_value: Option<String>,
    pub ip_requests_per_minute: Option<u32>,
    pub admin_auth: String,
    pub admin_password: Option<String>,
}

/// An optional JSON value equal to the one given.
pub fn copy_json(json: &Option<Json>) -> (r: Option<Json>)
    ensures
        r.deep_view() == json.deep_view(),
{
    match json {
        Some(json) => Some(json.duplicate()),
        None => None,
    }
}

impl ProviderConfig {
    /// A provider equal to this one.
    pub fn duplicate(&self) -> (r: ProviderConfig)
        ensures
            r.deep_view() == self.deep_view(),
    {
        ProviderConfig {
            id: self.id.clone(),
            name: self.name.clone(),
            base_url: self.base_url.clone(),
            auth_mode: self.auth_mode.clone(),
            default_wire_api: self.default_wire_api.clone(),
            state_scope: copy_opt(&self.state_scope),
            api_key: copy_opt(&self.api_key),
            allow_private_ips: self.allow_private_ips,
            skip_ssrf_validation: self.skip_ssrf_validation,
            config_json: copy_json(&self.config_json),
        }
    }
}

/// A route is stored under its own id, and under its model's name where it has none.
pub proof fn route_id_is_its_own_or_its_models(route: RouteView)
    ensures
        route.id matches Some(id) ==> effective_route_id(route) == id,
        route.id is None ==> effective_route_id(route) == route.downstream_model,
{
}

} // verus!
