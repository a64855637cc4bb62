//! Creating and changing providers.

use crate::admin::records::{
    is_sound, provider_of_record, provider_reads_back, provider_record, provider_record_to_config,
    provider_row, serialize_provider_record, shown_provider, stored_key, stored_managed_key,
};
use crate::admin::rows::{
    answer_carries_the_row, answer_with_row, failure_error, find_row, found_row, not_found_error,
    row_answer, row_count, row_failure, row_not_found,
};
use crate::admin::validate::{block_reason, provider_checked, rejected, validate_provider_candidate};
use crate::config::{ProviderConfig, ProviderView};
use crate::error::{error_of, outcome, Error, ErrorKind, ErrorView};
use crate::json::{add_item, Json, JsonView};
use crate::relay::target::UrlVerdict;
use crate::secrets::{encrypt_managed_key, is_sealed, sealable, unsealed};
use crate::store::{stored, ProviderRecord, ProviderRecordView};
use crate::text::{join3, same};
use vstd::prelude::*;
use vstd::utf8::encode_utf8;

verus! {

/// The refusal of a managed key that cannot be sealed for want of a secret.
pub open spec fn secret_missing() -> ErrorView {
    error_of(
        ErrorKind::InternalError,
        "managed_key_encryption_secret is required for managed provider keys"@,
    )
}

/// Whether `r` is the sealed key to be stored with a provider: only a managed
/// provider has one; a new key is sealed under the secret, and without a new one
/// the stored key stays.
pub open spec fn is_key_for(
    auth_mode: Seq<char>,
    api_key: Option<Seq<char>>,
    secret: Option<Seq<char>>,
    kept: Option<Seq<char>>,
    r: Result<Option<Seq<char>>, ErrorView>,
) -> bool {
    if auth_mode != "managed"@ {
        r == Ok::<Option<Seq<char>>, ErrorView>(None)
    } else {
        match api_key {
            None => r == Ok::<Option<Seq<char>>, ErrorView>(kept),
            Some(plaintext) => match secret {
                None => r == Err::<Option<Seq<char>>, ErrorView>(secret_missing()),
                Some(secret) => if sealable(encode_utf8(plaintext).len()) {
                    r matches Ok(Some(sealed)) && is_sealed(sealed) && sealed != plaintext
                        && unsealed(sealed, secret) == Ok::<Seq<char>, ErrorView>(plaintext)
                } else {
                    r == Err::<Option<Seq<char>>, ErrorView>(
                        error_of(ErrorKind::InternalError, "Managed key encryption failed"@),
                    )
                },
            },
        }
    }
}

/// The sealed key to be stored with a provider. `kept` is the key that is stored
/// already.
pub fn managed_key(
    auth_mode: &str,
    api_key: &Option<String>,
    secret: Option<&str>,
    kept: Option<String>,
) -> (r: Result<Option<String>, Error>)
    ensures
        is_key_for(
            auth_mode@,
            api_key.deep_view(),
            secret.deep_view(),
            kept.deep_view(),
            outcome(r),
        ),
{
    if !same(auth_mode, "managed") {
        return Ok(None);
    }
    let plaintext = match api_key {
        Some(plaintext) => plaintext.as_str(),
        None => {
            return Ok(kept);
        },
    };
    let secret = match secret {
        Some(secret) => secret,
        None => {
            return Err(
                Error::new(
                    ErrorKind::InternalError,
                    "managed_key_encryption_secret is required for managed provider keys",
                ),
            );
        },
    };
    match encrypt_managed_key(plaintext, secret) {
        Ok(sealed) => Ok(Some(sealed)),
        Err(error) => Err(error),
    }
}

/// Whether `r` is the row of a provider that was accepted, which reads back as that
/// provider, or the refusal of its key.
pub open spec fn is_row_for(
    provider: ProviderView,
    secret: Option<Seq<char>>,
    kept: Option<Seq<char>>,
    r: Result<ProviderRecordView, ErrorView>,
) -> bool {
    exists|key: Result<Option<Seq<char>>, ErrorView>| #[trigger]
        is_key_for(provider.auth_mode, provider.api_key, secret, kept, key) && (match key {
            Ok(key) => {
                &&& r == Ok::<ProviderRecordView, ErrorView>(provider_row(provider, key))
                &&& provider_reads_back(provider, key, provider_row(provider, key))
            },
            Err(error) => r == Err::<ProviderRecordView, ErrorView>(error),
        })
}

fn row_for(
    provider: &ProviderConfig,
    secret: Option<&str>,
    kept: Option<String>,
) -> (r: Result<ProviderRecord, Error>)
    ensures
        is_row_for(provider.deep_view(), secret.deep_view(), kept.deep_view(), outcome(r)),
{
    let key = managed_key(provider.auth_mode.as_str(), &provider.api_key, secret, kept);
    assert(is_key_for(
        provider.auth_mode@,
        provider.api_key.deep_view(),
        secret.deep_view(),
        kept.deep_view(),
        outcome(key),
    ));
    match key {
        Ok(key) => Ok(provider_record(provider, &key)),
        Err(error) => Err(error),
    }
}

/// What a provider that is sent is read as.
pub open spec fn sent<T: DeepView>(payload: Result<T, String>) -> Result<T::V, Seq<char>> {
    match payload {
        Ok(value) => Ok(value.deep_view()),
        Err(detail) => Err(detail@),
    }
}

/// Whether `r` is what comes of the creation of a provider: its row, or the
/// refusal.
pub open spec fn provider_created(
    payload: Result<ProviderView, Seq<char>>,
    exists_already: bool,
    blocked: Option<Seq<char>>,
    secret: Option<Seq<char>>,
    r: Result<ProviderRecordView, ErrorView>,
) -> bool {
    match payload {
        Err(detail) => r == Err::<ProviderRecordView, ErrorView>(
            rejected("Invalid provider payload: "@ + detail),
        ),
        Ok(provider) => if exists_already {
            r == Err::<ProviderRecordView, ErrorView>(
                rejected("Provider '"@ + provider.id + "' already exists"@),
            )
        } else {
            match provider_checked(provider, blocked) {
                Err(error) => r == Err::<ProviderRecordView, ErrorView>(error),
                Ok(_) => is_row_for(provider, secret, None, r),
            }
        },
    }
}

/// The row of a new provider. `exists_already` tells whether the store holds one
/// of that id, and `verdict` is the one on its address.
pub fn create_provider(
    payload: &Result<ProviderConfig, String>,
    exists_already: bool,
    verdict: &UrlVerdict,
    secret: Option<&str>,
) -> (r: Result<ProviderRecord, Error>)
    ensures
        provider_created(
            sent(*payload),
            exists_already,
            block_reason(*verdict),
            secret.deep_view(),
            outcome(r),
        ),
{
    let provider = match payload {
        Ok(provider) => provider,
        Err(detail) => {
            return Err(
                Error::about(
                    ErrorKind::RequestInvalid,
                    "Invalid provider payload: ",
                    detail.as_str(),
                ),
            );
        },
    };
    if exists_already {
        return Err(
            Error {
                kind: ErrorKind::RequestInvalid,
                message: join3("Provider '", provider.id.as_str(), "' already exists"),
            },
        );
    }
    if let Err(error) = validate_provider_candidate(provider, verdict) {
        return Err(error);
    }
    row_for(provider, secret, None)
}

/// The answer to the creation of a provider, given whether its row was written.
pub open spec fn provider_creation_answer(
    record: ProviderRecordView,
    written: Result<(), Seq<char>>,
) -> Result<JsonView, ErrorView> {
    match written {
        Err(detail) => Err(
            error_of(ErrorKind::InternalError, "Failed to persist provider: "@ + detail),
        ),
        Ok(_) => Ok(
            row_answer(record.id, "provider"@, shown_provider(record), "created"@),
        ),
    }
}

/// Whether a row was written.
pub open spec fn was_written(written: Result<(), String>) -> Result<(), Seq<char>> {
    match written {
        Ok(_) => Ok(()),
        Err(detail) => Err(detail@),
    }
}

/// The answer to the creation of a provider.
pub fn answer_provider_creation(record: &ProviderRecord, written: &Result<(), String>) -> (r:
    Result<Json, Error>)
    ensures
        match r {
            Ok(answer) => provider_creation_answer(record.deep_view(), was_written(*written))
                == Ok::<JsonView, ErrorView>(answer@),
            Err(error) => provider_creation_answer(record.deep_view(), was_written(*written))
                == Err::<JsonView, ErrorView>(error.deep_view()),
        },
{
    match written {
        Err(detail) => Err(
            Error::about(
                ErrorKind::InternalError,
                "Failed to persist provider: ",
                detail.as_str(),
            ),
        ),
        Ok(_) => Ok(
            answer_with_row(
                record.id.as_str(),
                "provider",
                serialize_provider_record(record),
                "created",
            ),
        ),
    }
}

/// A stored provider as an administrator is shown it.
pub fn get_provider(id: &str, row: Result<Option<ProviderRecord>, String>) -> (r: Result<
    Json,
    Error,
>)
    ensures
        match found_row("Provider"@, "provider"@, id@, stored(row)) {
            Ok(record) => r matches Ok(shown) && shown@ == shown_provider(record),
            Err(refusal) => r matches Err(error) && error.deep_view() == refusal,
        },
{
    match find_row("Provider", "provider", id, row) {
        Ok(record) => Ok(serialize_provider_record(&record)),
        Err(error) => Err(error),
    }
}

/// What is to be changed of a provider; what is not there stays.
#[derive(Debug)]
pub struct ProviderPatch {
    pub id: Option<String>,
    pub name: Option<String>,
    pub base_url: Option<String>,
    pub auth_mode: Option<String>,
    pub default_wire_api: Option<String>,
    pub state_scope: Option<String>,
    pub api_key: Option<String>,
    pub allow_private_ips: Option<bool>,
    pub skip_ssrf_validation: Option<bool>,
    pub config_json: Option<Json>,
}

/// The mathematical value of a [`ProviderPatch`].
#[verifier::ext_equal]
pub struct ProviderPatchView {
    pub id: Option<Seq<char>>,
    pub name: Option<Seq<char>>,
    pub base_url: Option<Seq<char>>,
    pub auth_mode: Option<Seq<char>>,
    pub default_wire_api: Option<Seq<char>>,
    pub state_scope: Option<Seq<char>>,
    pub api_key: Option<Seq<char>>,
    pub allow_private_ips: Option<bool>,
    pub skip_ssrf_validation: Option<bool>,
    pub config_json: Option<JsonView>,
}

impl DeepView for ProviderPatch {
    type V = ProviderPatchView;

    open spec fn deep_view(&self) -> ProviderPatchView {
        ProviderPatchView {
            id: self.id.deep_view(),
            name: self.name.deep_view(),
            base_url: self.base_url.deep_view(),
            auth_mode: self.auth_mode.deep_view(),
            default_wire_api: self.default_wire_api.deep_view(),
            state_scope: self.state_scope.deep_view(),
            api_key: self.api_key.deep_view(),
            allow_private_ips: self.allow_private_ips,
            skip_ssrf_validation: self.skip_ssrf_validation,
            config_json: self.config_json.deep_view(),
        }
    }
}

/// A new value, or else the one that was there.
pub open spec fn changed<T>(change: Option<T>, current: T) -> T {
    match change {
        Some(value) => value,
        None => current,
    }
}

/// A new optional value, or else the one that was there.
pub open spec fn changed_opt<T>(change: Option<T>, current: Option<T>) -> Option<T> {
    match change {
        Some(value) => Some(value),
        None => current,
    }
}

/// A provider with a change applied.
pub open spec fn patched_provider(
    provider: ProviderView,
    patch: ProviderPatchView,
) -> ProviderView {
    ProviderView {
        id: changed(patch.id, provider.id),
        name: changed(patch.name, provider.name),
        base_url: changed(patch.base_url, provider.base_url),
        auth_mode: changed(patch.auth_mode, provider.auth_mode),
        default_wire_api: changed(patch.default_wire_api, provider.default_wire_api),
        state_scope: changed_opt(patch.state_scope, provider.state_scope),
        api_key: changed_opt(patch.api_key, provider.api_key),
        allow_private_ips: changed(patch.allow_private_ips, provider.allow_private_ips),
        skip_ssrf_validation: changed(patch.skip_ssrf_validation, provider.skip_ssrf_validation),
        config_json: changed_opt(patch.config_json, provider.config_json),
    }
}

/// A text that a change gives, or else the one that was there.
pub fn change_text(change: Option<String>, current: String) -> (r: String)
    ensures
        r@ == changed(change.deep_view(), current@),
{
    match change {
        Some(value) => value,
        None => current,
    }
}

/// An optional text that a change gives, or else the one that was there.
pub fn change_opt(change: Option<String>, current: Option<String>) -> (r: Option<String>)
    ensures
        r.deep_view() == changed_opt(change.deep_view(), current.deep_view()),
{
    match change {
        Some(value) => Some(value),
        None => current,
    }
}

/// A flag that a change gives, or else the one that was there.
pub fn change_flag(change: Option<bool>, current: bool) -> (r: bool)
    ensures
        r == changed(change, current),
{
    match change {
        Some(value) => value,
        None => current,
    }
}

/// An optional value that a change gives, or else the one that was there.
pub fn change_json(change: Option<Json>, current: Option<Json>) -> (r: Option<Json>)
    ensures
        r.deep_view() == changed_opt(change.deep_view(), current.deep_view()),
{
    match change {
        Some(value) => Some(value),
        None => current,
    }
}

/// A provider before and after a change.
#[derive(Debug)]
pub struct ProviderChange {
    pub existing: ProviderRecord,
    pub candidate: ProviderConfig,
}

/// The mathematical value of a [`ProviderChange`].
#[verifier::ext_equal]
pub struct ProviderChangeView {
    pub existing: ProviderRecordView,
    pub candidate: ProviderView,
}

impl DeepView for ProviderChange {
    type V = ProviderChangeView;

    open spec fn deep_view(&self) -> ProviderChangeView {
        ProviderChangeView {
            existing: self.existing.deep_view(),
            candidate: self.candidate.deep_view(),
        }
    }
}

/// A provider before and after a change, where it can be changed.
pub open spec fn provider_change(
    id: Seq<char>,
    row: Result<Option<ProviderRecordView>, Seq<char>>,
    patch: Result<ProviderPatchView, Seq<char>>,
) -> Result<ProviderChangeView, ErrorView> {
    match found_row("Provider"@, "provider"@, id, row) {
        Err(error) => Err(error),
        Ok(existing) => match patch {
            Err(detail) => Err(rejected("Invalid provider update payload: "@ + detail)),
            Ok(patch) => if patch.id is Some && patch.id != Some(id) {
                Err(rejected("Provider id in payload must match path id"@))
            } else {
                Ok(
                    ProviderChangeView {
                        existing,
                        candidate: patched_provider(provider_of_record(existing), patch),
                    },
                )
            },
        },
    }
}

/// A provider before and after a change, where it can be changed.
pub fn patch_provider(
    id: &str,
    row: Result<Option<ProviderRecord>, String>,
    patch: Result<ProviderPatch, String>,
) -> (r: Result<ProviderChange, Error>)
    ensures
        outcome(r) == provider_change(id@, stored(row), sent(patch)),
{
    let existing = match find_row("Provider", "provider", id, row) {
        Ok(existing) => existing,
        Err(error) => {
            return Err(error);
        },
    };
    let patch = match patch {
        Ok(patch) => patch,
        Err(detail) => {
            return Err(
                Error::about(
                    ErrorKind::RequestInvalid,
                    "Invalid provider update payload: ",
                    detail.as_str(),
                ),
            );
        },
    };
    if let Some(new_id) = &patch.id {
        if !same(new_id.as_str(), id) {
            return Err(
                Error::new(
                    ErrorKind::RequestInvalid,
                    "Provider id in payload must match path id",
                ),
            );
        }
    }
    let current = provider_record_to_config(&existing);
    let candidate = ProviderConfig {
        id: change_text(patch.id, current.id),
        name: change_text(patch.name, current.name),
        base_url: change_text(patch.base_url, current.base_url),
        auth_mode: change_text(patch.auth_mode, current.auth_mode),
        default_wire_api: change_text(patch.default_wire_api, current.default_wire_api),
        state_scope: change_opt(patch.state_scope, current.state_scope),
        api_key: change_opt(patch.api_key, current.api_key),
        allow_private_ips: change_flag(patch.allow_private_ips, current.allow_private_ips),
        skip_ssrf_validation: change_flag(
            patch.skip_ssrf_validation,
            current.skip_ssrf_validation,
        ),
        config_json: change_json(patch.config_json, current.config_json),
    };
    Ok(ProviderChange { existing, candidate })
}

/// Whether `r` is what comes of a change of a provider: its new row, or the
/// refusal.
pub open spec fn provider_updated(
    change: ProviderChangeView,
    blocked: Option<Seq<char>>,
    secret: Option<Seq<char>>,
    r: Result<ProviderRecordView, ErrorView>,
) -> bool {
    match provider_checked(change.candidate, blocked) {
        Err(error) => r == Err::<ProviderRecordView, ErrorView>(error),
        Ok(_) => is_row_for(change.candidate, secret, stored_key(change.existing), r),
    }
}

/// The new row of a changed provider. `verdict` is the one on its new address.
pub fn update_provider(
    change: &ProviderChange,
    verdict: &UrlVerdict,
    secret: Option<&str>,
) -> (r: Result<ProviderRecord, Error>)
    ensures
        provider_updated(
            change.deep_view(),
            block_reason(*verdict),
            secret.deep_view(),
            outcome(r),
        ),
{
    if let Err(error) = validate_provider_candidate(&change.candidate, verdict) {
        return Err(error);
    }
    let kept = stored_managed_key(&change.existing);
    row_for(&change.candidate, secret, kept)
}

/// The answer to a change of a provider, given how many rows it took.
pub open spec fn provider_update_answer(
    id: Seq<char>,
    record: ProviderRecordView,
    rows: Result<u64, Seq<char>>,
) -> Result<JsonView, ErrorView> {
    match rows {
        Ok(count) => if count == 0 {
            Err(not_found_error("Provider"@, id))
        } else {
            Ok(row_answer(id, "provider"@, shown_provider(record), "updated"@))
        },
        Err(detail) => Err(failure_error("Failed to update "@, "provider"@, id, detail)),
    }
}

/// The answer to a change of a provider.
pub fn answer_provider_update(
    id: &str,
    record: &ProviderRecord,
    rows: &Result<u64, String>,
) -> (r: Result<Json, Error>)
    ensures
        match r {
            Ok(answer) => provider_update_answer(id@, record.deep_view(), row_count(*rows))
                == Ok::<JsonView, ErrorView>(answer@),
            Err(error) => provider_update_answer(id@, record.deep_view(), row_count(*rows))
                == Err::<JsonView, ErrorView>(error.deep_view()),
        },
{
    match rows {
        Ok(count) => {
            if *count == 0 {
                return Err(row_not_found("Provider", id));
            }
            Ok(answer_with_row(id, "provider", serialize_provider_record(record), "updated"))
        },
        Err(detail) => Err(row_failure("Failed to update ", "provider", id, detail.as_str())),
    }
}

/// The stored providers as an administrator is shown them; none where they could
/// not be read.
pub fn list_providers(rows: &Result<Vec<ProviderRecord>, String>) -> (r: Vec<Json>)
    ensures
        r.deep_view() == (match stored(*rows) {
            Ok(rows) => rows.map_values(|row: ProviderRecordView| shown_provider(row)),
            Err(_) => Seq::empty(),
        }),
{
    let mut shown: Vec<Json> = Vec::new();
    match rows {
        Ok(rows) => {
            let ghost wanted = rows.deep_view().map_values(
                |row: ProviderRecordView| shown_provider(row),
            );
            let mut i: usize = 0;
            assert(shown.deep_view() =~= wanted.take(0));
            while i < rows.len()
                invariant
                    i <= rows.len(),
                    wanted == rows.deep_view().map_values(
                        |row: ProviderRecordView| shown_provider(row),
                    ),
                    shown.deep_view() == wanted.take(i as int),
                decreases rows.len() - i,
            {
                add_item(&mut shown, serialize_provider_record(&rows[i]));
                assert(shown.deep_view() =~= wanted.take(i + 1));
                i = i + 1;
            }
            assert(wanted.take(wanted.len() as int) =~= wanted);
        },
        Err(_) => {
            assert(shown.deep_view() =~= Seq::empty());
        },
    }
    shown
}

/// A change that says nothing leaves a provider as it is.
pub proof fn empty_patch_changes_nothing(provider: ProviderView)
    ensures
        patched_provider(
            provider,
            ProviderPatchView {
                id: None,
                name: None,
                base_url: None,
                auth_mode: None,
                default_wire_api: None,
                state_scope: None,
                api_key: None,
                allow_private_ips: None,
                skip_ssrf_validation: None,
                config_json: None,
            },
        ) == provider,
{
}

/// A managed provider keeps its stored key through a change that brings no new
/// one, and loses it when it is no longer managed.
pub proof fn stored_key_survives_updates(
    change: ProviderChangeView,
    secret: Option<Seq<char>>,
    r: Result<ProviderRecordView, ErrorView>,
)
    requires
        provider_updated(change, None, secret, r),
        r is Ok,
        change.candidate.api_key is None || change.candidate.auth_mode != "managed"@,
    ensures
        r == Ok::<ProviderRecordView, ErrorView>(
            provider_row(
                change.candidate,
                if change.candidate.auth_mode == "managed"@ {
                    stored_key(change.existing)
                } else {
                    None
                },
            ),
        ),
{
}

/// The key that is stored with a new managed provider is sealed: it is not the key
/// that was sent, but opens to it under the configured secret, and without a
/// secret nothing is stored. It is read back from the row, and the administrator
/// is shown that a key is set.
pub proof fn new_managed_key_is_sealed(
    provider: ProviderView,
    blocked: Option<Seq<char>>,
    secret: Option<Seq<char>>,
    r: Result<ProviderRecordView, ErrorView>,
)
    requires
        provider_created(Ok(provider), false, blocked, secret, r),
        provider.auth_mode == "managed"@,
        provider.api_key is Some,
        r is Ok,
    ensures
        secret is Some,
        exists|sealed: Seq<char>| #[trigger]
            unsealed(sealed, secret->0) == Ok::<Seq<char>, ErrorView>(provider.api_key->0)
                && is_sealed(sealed) && sealed != provider.api_key->0 && r->Ok_0 == provider_row(
                provider,
                Some(sealed),
            ) && (is_sound(provider.config_json) ==> stored_key(r->Ok_0) == Some(sealed)),
        is_sound(provider.config_json) ==> shown_provider(r->Ok_0).get_bool("api_key_set"@) == Some(
            true,
        ),
{
    let key = choose|key: Result<Option<Seq<char>>, ErrorView>| #[trigger]
        is_key_for(provider.auth_mode, provider.api_key, secret, None, key) && (match key {
            Ok(key) => {
                &&& r == Ok::<ProviderRecordView, ErrorView>(provider_row(provider, key))
                &&& provider_reads_back(provider, key, provider_row(provider, key))
            },
            Err(error) => r == Err::<ProviderRecordView, ErrorView>(error),
        });
    let sealed = key->Ok_0->0;
    assert(unsealed(sealed, secret->0) == Ok::<Seq<char>, ErrorView>(provider.api_key->0));
}

/// A change gives a provider the values that it names, each in its own field, and
/// leaves the other fields as they are.
pub proof fn provider_change_is_field_by_field(provider: ProviderView, patch: ProviderPatchView)
    ensures
        ({
            let new = patched_provider(provider, patch);
            &&& patch.id matches Some(value) ==> new.id == value
            &&& patch.id is None ==> new.id == provider.id
            &&& patch.name matches Some(value) ==> new.name == value
            &&& patch.name is None ==> new.name == provider.name
            &&& patch.base_url matches Some(value) ==> new.base_url == value
            &&& patch.base_url is None ==> new.base_url == provider.base_url
            &&& patch.auth_mode matches Some(value) ==> new.auth_mode == value
            &&& patch.auth_mode is None ==> new.auth_mode == provider.auth_mode
            &&& patch.default_wire_api matches Some(value) ==> new.default_wire_api == value
            &&& patch.default_wire_api is None ==> new.default_wire_api == provider.default_wire_api
            &&& patch.allow_private_ips matches Some(value) ==> new.allow_private_ips == value
            &&& patch.allow_private_ips is None ==> new.allow_private_ips == provider.allow_private_ips
            &&& patch.skip_ssrf_validation matches Some(value) ==> new.skip_ssrf_validation == value
            &&& patch.skip_ssrf_validation is None ==> new.skip_ssrf_validation == provider.skip_ssrf_validation
            &&& patch.state_scope is Some ==> new.state_scope == patch.state_scope
            &&& patch.state_scope is None ==> new.state_scope == provider.state_scope
            &&& patch.api_key is Some ==> new.api_key == patch.api_key
            &&& patch.api_key is None ==> new.api_key == provider.api_key
            &&& patch.config_json is Some ==> new.config_json == patch.config_json
            &&& patch.config_json is None ==> new.config_json == provider.config_json
        }),
{
}

/// A provider can be changed just where the store holds it, the change can be read, and
/// it names no other id. The change is then of the stored provider.
pub proof fn stored_provider_is_changed(
    id: Seq<char>,
    row: Result<Option<ProviderRecordView>, Seq<char>>,
    patch: Result<ProviderPatchView, Seq<char>>,
)
    ensures
        provider_change(id, row, patch) is Ok <==> {
            &&& row is Ok && row->Ok_0 is Some && patch is Ok
            &&& patch->Ok_0.id is None || patch->Ok_0.id == Some(id)
        },
        provider_change(id, row, patch) matches Ok(change) ==> {
            &&& row == Ok::<Option<ProviderRecordView>, Seq<char>>(Some(change.existing))
            &&& change.candidate == patched_provider(
                provider_of_record(change.existing),
                patch->Ok_0,
            )
        },
        provider_change(id, row, patch) matches Err(error) ==> error.kind == match row {
            Err(_) => ErrorKind::InternalError,
            Ok(None) => ErrorKind::StateNotFound,
            Ok(Some(_)) => ErrorKind::RequestInvalid,
        },
{
}

/// The key that is stored with a provider: none with one that is not managed; with a
/// managed one the stored key where no new one is sent, and a new one only sealed. A
/// new one without a secret to seal it under is refused.
pub proof fn key_is_stored_by_the_mode(
    auth_mode: Seq<char>,
    api_key: Option<Seq<char>>,
    secret: Option<Seq<char>>,
    kept: Option<Seq<char>>,
    r: Result<Option<Seq<char>>, ErrorView>,
)
    requires
        is_key_for(auth_mode, api_key, secret, kept, r),
    ensures
        auth_mode != "managed"@ ==> r == Ok::<Option<Seq<char>>, ErrorView>(None),
        auth_mode == "managed"@ && api_key is None ==> r == Ok::<Option<Seq<char>>, ErrorView>(
            kept,
        ),
        auth_mode == "managed"@ && api_key is Some && secret is None ==> (r matches Err(error)
            && error.kind == ErrorKind::InternalError),
        auth_mode == "managed"@ && api_key is Some && r is Ok ==> {
            &&& secret is Some && r->Ok_0 is Some && r->Ok_0 != api_key
            &&& unsealed(r->Ok_0->0, secret->0) == Ok::<Seq<char>, ErrorView>(api_key->0)
        },
{
}

/// A provider is created just where what was sent can be read, no provider has its id
/// yet, it is accepted, and its key can be stored; then it is stored under its own
/// name.
pub proof fn new_provider_is_stored_once(
    payload: Result<ProviderView, Seq<char>>,
    exists_already: bool,
    blocked: Option<Seq<char>>,
    secret: Option<Seq<char>>,
    r: Result<ProviderRecordView, ErrorView>,
)
    requires
        provider_created(payload, exists_already, blocked, secret, r),
    ensures
        r is Ok ==> {
            &&& payload is Ok && !exists_already && provider_checked(payload->Ok_0, blocked) is Ok
            &&& r->Ok_0.id == payload->Ok_0.id && r->Ok_0.name == payload->Ok_0.name
            &&& r->Ok_0.base_url == payload->Ok_0.base_url
            &&& r->Ok_0.auth_mode == payload->Ok_0.auth_mode
            &&& r->Ok_0.default_wire_api == payload->Ok_0.default_wire_api
            &&& r->Ok_0.state_scope == payload->Ok_0.state_scope
        },
        payload is Err || exists_already ==> (r matches Err(error) && error.kind
            == ErrorKind::RequestInvalid),
        payload is Ok && !exists_already && provider_checked(payload->Ok_0, blocked) is Ok
            && payload->Ok_0.auth_mode != "managed"@ ==> r is Ok,
{
}

/// A provider that was written is answered as it is shown, as created or updated; a
/// change that took no row tells that there is none.
pub proof fn written_provider_is_answered(
    id: Seq<char>,
    record: ProviderRecordView,
    written: Result<(), Seq<char>>,
    rows: Result<u64, Seq<char>>,
)
    ensures
        provider_creation_answer(record, written) is Ok <==> written is Ok,
        provider_creation_answer(record, written) matches Ok(answer) ==> {
            &&& answer.holds("id"@, JsonView::Text(record.id))
            &&& answer.holds("provider"@, shown_provider(record))
            &&& answer.holds("status"@, JsonView::Text("created"@))
        },
        provider_update_answer(id, record, rows) is Ok <==> (rows matches Ok(count) && count > 0),
        provider_update_answer(id, record, rows) matches Ok(answer) ==> {
            &&& answer.holds("id"@, JsonView::Text(id))
            &&& answer.holds("provider"@, shown_provider(record))
            &&& answer.holds("status"@, JsonView::Text("updated"@))
        },
        provider_update_answer(id, record, rows) matches Err(error) ==> error.kind == if rows is Ok {
            ErrorKind::StateNotFound
        } else {
            ErrorKind::InternalError
        },
{
    answer_carries_the_row(record.id, "provider"@, shown_provider(record), "created"@);
    answer_carries_the_row(id, "provider"@, shown_provider(record), "updated"@);
}

} // verus!
