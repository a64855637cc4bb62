//! The first filling of the operational configuration from the configuration
//! file: once, while there are no routes in the store, and with managed keys
//! sealed.

use crate::config::{ProviderConfig, ProviderView};
use crate::error::{error_of, Error, ErrorKind, ErrorView};
use crate::secrets::{
    encrypt_managed_key, is_sealed, sealable, sealed_key_is_marked, sealed_text, unsealed, PREFIX,
};
use crate::text::{same, starts_with};
use vstd::prelude::*;
use vstd::utf8::encode_utf8;

verus! {

/// What is to be done about the first filling.
#[derive(Debug, Clone, Copy, PartialEq, Eq, Structural)]
pub enum SeedStep {
    /// Nothing is left to do.
    Done,
    /// Count the routes in the store.
    CountRoutes,
    /// Wait until no other request fills the store, and count the routes again.
    LockAndCountRoutes,
    /// Fill the store, under the lock.
    Seed,
}

/// The first step: nothing where the file has neither providers nor routes.
pub open spec fn first_seed_step(providers: nat, routes: nat) -> SeedStep {
    if providers == 0 && routes == 0 {
        SeedStep::Done
    } else {
        SeedStep::CountRoutes
    }
}

/// The step after the routes were counted.
pub open spec fn next_seed_step(step: SeedStep, route_count: i64) -> SeedStep {
    if route_count > 0 {
        SeedStep::Done
    } else {
        match step {
            SeedStep::CountRoutes => SeedStep::LockAndCountRoutes,
            SeedStep::LockAndCountRoutes => SeedStep::Seed,
            other => other,
        }
    }
}

/// The first step.
pub fn seed_start(provider_count: usize, route_count: usize) -> (r: SeedStep)
    ensures
        r == first_seed_step(provider_count as nat, route_count as nat),
{
    if provider_count == 0 && route_count == 0 {
        SeedStep::Done
    } else {
        SeedStep::CountRoutes
    }
}

/// The step after the store was asked for the number of its routes.
pub fn seed_next(step: SeedStep, route_count: Result<i64, String>) -> (r: Result<SeedStep, Error>)
    ensures
        match route_count {
            Ok(count) => r matches Ok(next) && next == next_seed_step(step, count),
            Err(detail) => r matches Err(error) && error.deep_view() == error_of(
                ErrorKind::InternalError,
                "Failed to read runtime config state: "@ + detail@,
            ),
        },
{
    let count: i64 = match route_count {
        Ok(count) => count,
        Err(detail) => {
            return Err(
                Error::about(
                    ErrorKind::InternalError,
                    "Failed to read runtime config state: ",
                    detail.as_str(),
                ),
            );
        },
    };
    if count > 0 {
        return Ok(SeedStep::Done);
    }
    Ok(
        match step {
            SeedStep::CountRoutes => SeedStep::LockAndCountRoutes,
            SeedStep::LockAndCountRoutes => SeedStep::Seed,
            other => other,
        },
    )
}

/// What a failed filling is reported as.
pub fn seed_failed(detail: &str) -> (r: Error)
    ensures
        r.deep_view() == error_of(
            ErrorKind::InternalError,
            "Failed to seed runtime config from file config: "@ + detail@,
        ),
{
    Error::about(
        ErrorKind::InternalError,
        "Failed to seed runtime config from file config: ",
        detail,
    )
}

/// A store that holds routes is never filled, whether they are found at once or
/// only under the lock.
pub proof fn filled_store_is_left_alone(providers: nat, routes: nat, first: i64, second: i64)
    ensures
        first > 0 || second > 0 ==> next_seed_step(
            next_seed_step(first_seed_step(providers, routes), first),
            second,
        ) != SeedStep::Seed,
        providers == 0 && routes == 0 ==> next_seed_step(
            next_seed_step(first_seed_step(providers, routes), first),
            second,
        ) == SeedStep::Done,
        providers > 0 && first <= 0 && second <= 0 ==> next_seed_step(
            next_seed_step(first_seed_step(providers, routes), first),
            second,
        ) == SeedStep::Seed,
{
}

/// Whether the key of a provider is to be sealed: it is a managed one, and is
/// not sealed yet.
pub open spec fn wants_sealing(provider: ProviderView) -> bool {
    provider.auth_mode == "managed"@ && (provider.api_key matches Some(key) && !is_sealed(key))
}

/// Whether `after` is a provider as it is stored: with a key that is to be sealed
/// sealed under the secret, and nothing else changed.
pub open spec fn is_protected(
    before: ProviderView,
    after: ProviderView,
    secret: Option<Seq<char>>,
) -> bool {
    match secret {
        Some(secret) if wants_sealing(before) => {
            &&& after.api_key matches Some(sealed)
            &&& is_sealed(sealed)
            &&& unsealed(sealed, secret) == Ok::<Seq<char>, ErrorView>(before.api_key->0)
            &&& after == (ProviderView { api_key: Some(sealed), ..before })
        },
        _ => after == before,
    }
}

/// Whether a key can be sealed, where it is to be.
pub open spec fn is_protectable(provider: ProviderView, secret: Option<Seq<char>>) -> bool {
    secret is Some && wants_sealing(provider) ==> sealable(encode_utf8(provider.api_key->0).len())
}

fn protect(provider: &ProviderConfig, secret: Option<&str>) -> (r: Result<ProviderConfig, Error>)
    ensures
        match r {
            Ok(after) => is_protectable(provider.deep_view(), secret.deep_view()) && is_protected(
                provider.deep_view(),
                after.deep_view(),
                secret.deep_view(),
            ),
            Err(error) => !is_protectable(provider.deep_view(), secret.deep_view())
                && error.deep_view() == error_of(
                ErrorKind::InternalError,
                "Managed key encryption failed"@,
            ),
        },
{
    let mut after = provider.duplicate();
    let secret = match secret {
        Some(secret) => secret,
        None => {
            return Ok(after);
        },
    };
    if !same(provider.auth_mode.as_str(), "managed") {
        return Ok(after);
    }
    let key = match &provider.api_key {
        Some(key) => key.as_str(),
        None => {
            return Ok(after);
        },
    };
    if starts_with(key, PREFIX) {
        return Ok(after);
    }
    match encrypt_managed_key(key, secret) {
        Ok(sealed) => {
            proof {
                let nonce = choose|nonce: Seq<u8>|
                    nonce.len() == 12 && sealed@ == #[trigger] sealed_text(
                        key@,
                        secret@,
                        nonce,
                    );
                sealed_key_is_marked(key@, secret@, nonce);
            }
            after.api_key = Some(sealed);
            Ok(after)
        },
        Err(error) => Err(error),
    }
}

/// The providers as they are stored: where a secret is configured, with their
/// managed keys sealed.
pub fn config_with_encrypted_managed_keys(
    providers: &Vec<ProviderConfig>,
    secret: Option<&str>,
) -> (r: Result<Vec<ProviderConfig>, Error>)
    ensures
        match r {
            Ok(stored) => {
                &&& stored@.len() == providers@.len()
                &&& forall|i: int|
                    0 <= i < providers@.len() ==> is_protected(
                        #[trigger] providers@[i].deep_view(),
                        stored@[i].deep_view(),
                        secret.deep_view(),
                    )
            },
            Err(error) => {
                &&& exists|i: int|
                    0 <= i < providers@.len() && !is_protectable(
                        #[trigger] providers@[i].deep_view(),
                        secret.deep_view(),
                    )
                &&& error.deep_view() == error_of(
                    ErrorKind::InternalError,
                    "Managed key encryption failed"@,
                )
            },
        },
        (forall|i: int|
            0 <= i < providers@.len() ==> is_protectable(
                #[trigger] providers@[i].deep_view(),
                secret.deep_view(),
            )) ==> r is Ok,
{
    let mut stored: Vec<ProviderConfig> = Vec::new();
    let mut i: usize = 0;
    while i < providers.len()
        invariant
            i <= providers.len(),
            stored@.len() == i,
            forall|j: int|
                0 <= j < i ==> is_protected(
                    #[trigger] providers@[j].deep_view(),
                    stored@[j].deep_view(),
                    secret.deep_view(),
                ),
        decreases providers.len() - i,
    {
        match protect(&providers[i], secret) {
            Ok(provider) => {
                stored.push(provider);
            },
            Err(error) => {
                assert(!is_protectable(providers@[i as int].deep_view(), secret.deep_view()));
                return Err(error);
            },
        }
        i = i + 1;
    }
    Ok(stored)
}

/// With a secret configured no managed key is stored in the clear.
pub proof fn managed_keys_are_never_stored_in_the_clear(
    before: ProviderView,
    after: ProviderView,
    secret: Seq<char>,
)
    requires
        is_protected(before, after, Some(secret)),
    ensures
        after.auth_mode == "managed"@ ==> (after.api_key matches Some(key) ==> is_sealed(key)),
        after.id == before.id,
{
}

/// The store is filled just where the file has something to fill it with and no routes
/// are found, neither before the lock nor under it.
pub proof fn store_is_filled_once(providers: nat, routes: nat, step: SeedStep, count: i64)
    ensures
        first_seed_step(providers, routes) is Done <==> providers == 0 && routes == 0,
        providers > 0 || routes > 0 ==> first_seed_step(providers, routes) is CountRoutes,
        count > 0 ==> next_seed_step(step, count) is Done,
        count <= 0 ==> next_seed_step(SeedStep::CountRoutes, count) is LockAndCountRoutes,
        count <= 0 ==> next_seed_step(SeedStep::LockAndCountRoutes, count) is Seed,
        next_seed_step(SeedStep::Done, count) is Done,
{
}

/// A key is sealed just where there is a secret, the provider is a managed one, and the
/// key is not sealed yet; what is sealed opens again under the secret, and nothing else
/// of a provider is changed.
pub proof fn only_bare_managed_keys_are_sealed(
    before: ProviderView,
    after: ProviderView,
    secret: Option<Seq<char>>,
)
    requires
        is_protected(before, after, secret),
    ensures
        secret is None || before.auth_mode != "managed"@ || before.api_key is None ==> after
            == before,
        before.api_key matches Some(key) ==> is_sealed(key) ==> after == before,
        after == (ProviderView { api_key: after.api_key, ..before }),
        after != before ==> secret is Some && before.api_key is Some && after.api_key is Some
            && unsealed(after.api_key->0, secret->0) == Ok::<Seq<char>, ErrorView>(
            before.api_key->0,
        ),
        secret is Some && before.auth_mode == "managed"@ && before.api_key is Some && !is_sealed(
            before.api_key->0,
        ) ==> after.api_key is Some && is_sealed(after.api_key->0),
{
}

} // verus!
