//! The rows of the operational store, as they are read and as they are to be
//! written.

use vstd::prelude::*;

verus! {

/// A stored item of a response.
#[derive(Debug)]
pub struct ItemRecord {
    pub id: String,
    pub item_type: String,
    pub role: Option<String>,
    pub call_id: Option<String>,
    pub content_json: String,
    pub visible: i64,
}

/// The mathematical value of an [`ItemRecord`].
#[verifier::ext_equal]
pub struct ItemView {
    pub id: Seq<char>,
    pub item_type: Seq<char>,
    pub role: Option<Seq<char>>,
    pub call_id: Option<Seq<char>>,
    pub content_json: Seq<char>,
    pub visible: i64,
}

impl DeepView for ItemRecord {
    type V = ItemView;

    open spec fn deep_view(&self) -> ItemView {
        ItemView {
            id: self.id@,
            item_type: self.item_type@,
            role: self.role.deep_view(),
            call_id: self.call_id.deep_view(),
            content_json: self.content_json@,
            visible: self.visible,
        }
    }
}

/// A stored response.
#[derive(Debug)]
pub struct ResponseRecord {
    pub id: String,
    pub downstream_model: String,
    pub provider_id: Option<String>,
    pub upstream_model: Option<String>,
    pub wire_api: Option<String>,
    pub state_scope: Option<String>,
    pub status: String,
    pub usage_json: Option<String>,
    pub created_at: String,
}

/// The mathematical value of a [`ResponseRecord`].
#[verifier::ext_equal]
pub struct ResponseRecordView {
    pub id: Seq<char>,
    pub downstream_model: Seq<char>,
    pub provider_id: Option<Seq<char>>,
    pub upstream_model: Option<Seq<char>>,
    pub wire_api: Option<Seq<char>>,
    pub state_scope: Option<Seq<char>>,
    pub status: Seq<char>,
    pub usage_json: Option<Seq<char>>,
    pub created_at: Seq<char>,
}

impl DeepView for ResponseRecord {
    type V = ResponseRecordView;

    open spec fn deep_view(&self) -> ResponseRecordView {
        ResponseRecordView {
            id: self.id@,
            downstream_model: self.downstream_model@,
            provider_id: self.provider_id.deep_view(),
            upstream_model: self.upstream_model.deep_view(),
            wire_api: self.wire_api.deep_view(),
            state_scope: self.state_scope.deep_view(),
            status: self.status@,
            usage_json: self.usage_json.deep_view(),
            created_at: self.created_at@,
        }
    }
}

/// A stored handle: the upstream's own id of a response, with the credential
/// under which it was made.
#[derive(Debug)]
pub struct HandleRecord {
    pub credential_hash: String,
    pub upstream_response_id: Option<String>,
}

/// The mathematical value of a [`HandleRecord`].
#[verifier::ext_equal]
pub struct HandleView {
    pub credential_hash: Seq<char>,
    pub upstream_response_id: Option<Seq<char>>,
}

impl DeepView for HandleRecord {
    type V = HandleView;

    open spec fn deep_view(&self) -> HandleView {
        HandleView {
            credential_hash: self.credential_hash@,
            upstream_response_id: self.upstream_response_id.deep_view(),
        }
    }
}

/// A line of the request log.
#[derive(Debug)]
pub struct LogEntry {
    pub request_id: String,
    pub downstream_key_hash: Option<String>,
    pub downstream_model: Option<String>,
    pub route_id: Option<String>,
    pub target_id: Option<String>,
    pub provider_id: Option<String>,
    pub upstream_model: Option<String>,
    pub wire_api: Option<String>,
    pub status_code: Option<i32>,
    pub error_kind: Option<String>,
    pub latency_ms: Option<i64>,
    pub input_tokens: Option<i64>,
    pub output_tokens: Option<i64>,
}

/// The mathematical value of a [`LogEntry`].
#[verifier::ext_equal]
pub struct LogView {
    pub request_id: Seq<char>,
    pub downstream_key_hash: Option<Seq<char>>,
    pub downstream_model: Option<Seq<char>>,
    pub route_id: Option<Seq<char>>,
    pub target_id: Option<Seq<char>>,
    pub provider_id: Option<Seq<char>>,
    pub upstream_model: Option<Seq<char>>,
    pub wire_api: Option<Seq<char>>,
    pub status_code: Option<i32>,
    pub error_kind: Option<Seq<char>>,
    pub latency_ms: Option<i64>,
    pub input_tokens: Option<i64>,
    pub output_tokens: Option<i64>,
}

impl DeepView for LogEntry {
    type V = LogView;

    open spec fn deep_view(&self) -> LogView {
        LogView {
            request_id: self.request_id@,
            downstream_key_hash: self.downstream_key_hash.deep_view(),
            downstream_model: self.downstream_model.deep_view(),
            route_id: self.route_id.deep_view(),
            target_id: self.target_id.deep_view(),
            provider_id: self.provider_id.deep_view(),
            upstream_model: self.upstream_model.deep_view(),
            wire_api: self.wire_api.deep_view(),
            status_code: self.status_code,
            error_kind: self.error_kind.deep_view(),
            latency_ms: self.latency_ms,
            input_tokens: self.input_tokens,
            output_tokens: self.output_tokens,
        }
    }
}

/// The outcome of a read or a write: what it gave, or the store's message.
pub open spec fn stored<T: DeepView>(result: Result<T, String>) -> Result<T::V, Seq<char>> {
    match result {
        Ok(value) => Ok(value.deep_view()),
        Err(message) => Err(message@),
    }
}

/// A response to be stored.
#[derive(Debug)]
pub struct ResponseInsert {
    pub id: String,
    pub request_id: String,
    pub downstream_model: String,
    pub route_id: Option<String>,
    pub target_id: Option<String>,
    pub provider_id: Option<String>,
    pub upstream_model: Option<String>,
    pub wire_api: Option<String>,
    pub upstream_response_id: Option<String>,
    pub state_scope: Option<String>,
    pub previous_response_id: Option<String>,
    pub status: String,
    pub usage_json: Option<String>,
    pub error_json: Option<String>,
}

/// The mathematical value of a [`ResponseInsert`].
#[verifier::ext_equal]
pub struct ResponseInsertView {
    pub id: Seq<char>,
    pub request_id: Seq<char>,
    pub downstream_model: Seq<char>,
    pub route_id: Option<Seq<char>>,
    pub target_id: Option<Seq<char>>,
    pub provider_id: Option<Seq<char>>,
    pub upstream_model: Option<Seq<char>>,
    pub wire_api: Option<Seq<char>>,
    pub upstream_response_id: Option<Seq<char>>,
    pub state_scope: Option<Seq<char>>,
    pub previous_response_id: Option<Seq<char>>,
    pub status: Seq<char>,
    pub usage_json: Option<Seq<char>>,
    pub error_json: Option<Seq<char>>,
}

impl DeepView for ResponseInsert {
    type V = ResponseInsertView;

    open spec fn deep_view(&self) -> ResponseInsertView {
        ResponseInsertView {
            id: self.id@,
            request_id: self.request_id@,
            downstream_model: self.downstream_model@,
            route_id: self.route_id.deep_view(),
            target_id: self.target_id.deep_view(),
            provider_id: self.provider_id.deep_view(),
            upstream_model: self.upstream_model.deep_view(),
            wire_api: self.wire_api.deep_view(),
            upstream_response_id: self.upstream_response_id.deep_view(),
            state_scope: self.state_scope.deep_view(),
            previous_response_id: self.previous_response_id.deep_view(),
            status: self.status@,
            usage_json: self.usage_json.deep_view(),
            error_json: self.error_json.deep_view(),
        }
    }
}

/// A handle to be stored.
#[derive(Debug)]
pub struct UpstreamHandleInsert {
    pub id: String,
    pub modelwire_response_id: String,
    pub provider_id: String,
    pub credential_hash: String,
    pub upstream_model: String,
    pub wire_api: String,
    pub state_scope: Option<String>,
    pub upstream_response_id: Option<String>,
    pub handle_json: String,
}

/// The mathematical value of an [`UpstreamHandleInsert`].
#[verifier::ext_equal]
pub struct HandleInsertView {
    pub id: Seq<char>,
    pub modelwire_response_id: Seq<char>,
    pub provider_id: Seq<char>,
    pub credential_hash: Seq<char>,
    pub upstream_model: Seq<char>,
    pub wire_api: Seq<char>,
    pub state_scope: Option<Seq<char>>,
    pub upstream_response_id: Option<Seq<char>>,
    pub handle_json: Seq<char>,
}

impl DeepView for UpstreamHandleInsert {
    type V = HandleInsertView;

    open spec fn deep_view(&self) -> HandleInsertView {
        HandleInsertView {
            id: self.id@,
            modelwire_response_id: self.modelwire_response_id@,
            provider_id: self.provider_id@,
            credential_hash: self.credential_hash@,
            upstream_model: self.upstream_model@,
            wire_api: self.wire_api@,
            state_scope: self.state_scope.deep_view(),
            upstream_response_id: self.upstream_response_id.deep_view(),
            handle_json: self.handle_json@,
        }
    }
}

/// An item of a response to be stored.
#[derive(Debug)]
pub struct ResponseItemInsert {
    pub id: String,
    pub response_id: String,
    pub sequence: i64,
    pub item_type: String,
    pub role: Option<String>,
    pub call_id: Option<String>,
    pub content_json: String,
    pub visible: bool,
}

/// The mathematical value of a [`ResponseItemInsert`].
#[verifier::ext_equal]
pub struct ItemInsertView {
    pub id: Seq<char>,
    pub response_id: Seq<char>,
    pub sequence: i64,
    pub item_type: Seq<char>,
    pub role: Option<Seq<char>>,
    pub call_id: Option<Seq<char>>,
    pub content_json: Seq<char>,
    pub visible: bool,
}

impl DeepView for ResponseItemInsert {
    type V = ItemInsertView;

    open spec fn deep_view(&self) -> ItemInsertView {
        ItemInsertView {
            id: self.id@,
            response_id: self.response_id@,
            sequence: self.sequence,
            item_type: self.item_type@,
            role: self.role.deep_view(),
            call_id: self.call_id.deep_view(),
            content_json: self.content_json@,
            visible: self.visible,
        }
    }
}

/// The item that a stored item is read back as.
pub open spec fn read_back(item: ItemInsertView) -> ItemView {
    ItemView {
        id: item.id,
        item_type: item.item_type,
        role: item.role,
        call_id: item.call_id,
        content_json: item.content_json,
        visible: if item.visible {
            1
        } else {
            0
        },
    }
}

/// A stored provider.
#[derive(Debug)]
pub struct ProviderRecord {
    pub id: String,
    pub name: String,
    pub base_url: String,
    pub auth_mode: String,
    pub default_wire_api: String,
    pub state_scope: Option<String>,
    pub config_json: String,
}

/// The mathematical value of a [`ProviderRecord`].
#[verifier::ext_equal]
pub struct ProviderRecordView {
    pub id: Seq<char>,
    pub name: Seq<char>,
    pub base_url: Seq<char>,
    pub auth_mode: Seq<char>,
    pub default_wire_api: Seq<char>,
    pub state_scope: Option<Seq<char>>,
    pub config_json: Seq<char>,
}

impl DeepView for ProviderRecord {
    type V = ProviderRecordView;

    open spec fn deep_view(&self) -> ProviderRecordView {
        ProviderRecordView {
            id: self.id@,
            name: self.name@,
            base_url: self.base_url@,
            auth_mode: self.auth_mode@,
            default_wire_api: self.default_wire_api@,
            state_scope: self.state_scope.deep_view(),
            config_json: self.config_json@,
        }
    }
}

/// A stored route.
#[derive(Debug)]
pub struct RouteRecord {
    pub id: String,
    pub downstream_model: String,
    pub description: Option<String>,
    pub enabled: i64,
}

/// The mathematical value of a [`RouteRecord`].
#[verifier::ext_equal]
pub struct RouteRecordView {
    pub id: Seq<char>,
    pub downstream_model: Seq<char>,
    pub description: Option<Seq<char>>,
    pub enabled: i64,
}

impl DeepView for RouteRecord {
    type V = RouteRecordView;

    open spec fn deep_view(&self) -> RouteRecordView {
        RouteRecordView {
            id: self.id@,
            downstream_model: self.downstream_model@,
            description: self.description.deep_view(),
            enabled: self.enabled,
        }
    }
}

/// A stored target of a route.
#[derive(Debug)]
pub struct TargetRecord {
    pub id: String,
    pub route_id: String,
    pub provider_id: String,
    pub upstream_model: String,
    pub wire_api: String,
    pub priority: i32,
    pub enabled: i64,
    pub config_json: String,
}

/// The mathematical value of a [`TargetRecord`].
#[verifier::ext_equal]
pub struct TargetRecordView {
    pub id: Seq<char>,
    pub route_id: Seq<char>,
    pub provider_id: Seq<char>,
    pub upstream_model: Seq<char>,
    pub wire_api: Seq<char>,
    pub priority: i32,
    pub enabled: i64,
    pub config_json: Seq<char>,
}

impl DeepView for TargetRecord {
    type V = TargetRecordView;

    open spec fn deep_view(&self) -> TargetRecordView {
        TargetRecordView {
            id: self.id@,
            route_id: self.route_id@,
            provider_id: self.provider_id@,
            upstream_model: self.upstream_model@,
            wire_api: self.wire_api@,
            priority: self.priority,
            enabled: self.enabled,
            config_json: self.config_json@,
        }
    }
}

/// A stored line of the request log.
#[derive(Debug)]
pub struct LogRecord {
    pub id: String,
    pub request_id: String,
    pub downstream_key_hash: Option<String>,
    pub downstream_model: Option<String>,
    pub route_id: Option<String>,
    pub target_id: Option<String>,
    pub provider_id: Option<String>,
    pub upstream_model: Option<String>,
    pub wire_api: Option<String>,
    pub status_code: Option<i64>,
    pub error_kind: Option<String>,
    pub latency_ms: Option<i64>,
    pub input_tokens: Option<i64>,
    pub output_tokens: Option<i64>,
    pub reasoning_tokens: Option<i64>,
    pub created_at: String,
}

/// The mathematical value of a [`LogRecord`].
#[verifier::ext_equal]
pub struct LogRecordView {
    pub id: Seq<char>,
    pub request_id: Seq<char>,
    pub downstream_key_hash: Option<Seq<char>>,
    pub downstream_model: Option<Seq<char>>,
    pub route_id: Option<Seq<char>>,
    pub target_id: Option<Seq<char>>,
    pub provider_id: Option<Seq<char>>,
    pub upstream_model: Option<Seq<char>>,
    pub wire_api: Option<Seq<char>>,
    pub status_code: Option<i64>,
    pub error_kind: Option<Seq<char>>,
    pub latency_ms: Option<i64>,
    pub input_tokens: Option<i64>,
    pub output_tokens: Option<i64>,
    pub reasoning_tokens: Option<i64>,
    pub created_at: Seq<char>,
}

impl DeepView for LogRecord {
    type V = LogRecordView;

    open spec fn deep_view(&self) -> LogRecordView {
        LogRecordView {
            id: self.id@,
            request_id: self.request_id@,
            downstream_key_hash: self.downstream_key_hash.deep_view(),
            downstream_model: self.downstream_model.deep_view(),
            route_id: self.route_id.deep_view(),
            target_id: self.target_id.deep_view(),
            provider_id: self.provider_id.deep_view(),
            upstream_model: self.upstream_model.deep_view(),
            wire_api: self.wire_api.deep_view(),
            status_code: self.status_code,
            error_kind: self.error_kind.deep_view(),
            latency_ms: self.latency_ms,
            input_tokens: self.input_tokens,
            output_tokens: self.output_tokens,
            reasoning_tokens: self.reasoning_tokens,
            created_at: self.created_at@,
        }
    }
}

/// An item comes back from the store field by field, and can be seen just where it was
/// stored so.
pub proof fn items_come_back_as_they_were(item: ItemInsertView)
    ensures
        ({
            let back = read_back(item);
            &&& back.id == item.id && back.item_type == item.item_type
            &&& back.role == item.role && back.call_id == item.call_id
            &&& back.content_json == item.content_json
            &&& back.visible != 0 <==> item.visible
        }),
{
}

/// What a read gave is what the store gave, and a failure is told in its own words.
pub proof fn reads_are_told_as_they_were<T: DeepView>(value: T, message: String)
    ensures
        stored(Ok::<T, String>(value)) == Ok::<T::V, Seq<char>>(value.deep_view()),
        stored(Err::<T, String>(message)) == Err::<T::V, Seq<char>>(message@),
{
}

} // verus!
